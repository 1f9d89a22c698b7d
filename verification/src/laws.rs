//! Laws of the renderer: properties that hold of every render pass,
//! stated over the spec functions the executable contracts are proved
//! against.

use vstd::prelude::*;

use crate::cache::CacheView;
use crate::cache::EntryView;
use crate::cache::spec_cache_lookup;
use crate::cache::spec_cache_store;
use crate::cache::spec_next_handle;
use crate::commands::Cmd;
use crate::picture::spec_decoded_pixels;
use crate::picture::spec_display_height;
use crate::picture::spec_picture_hash;
use crate::pool::Container;
use crate::pool::Object;
use crate::pool::ObjectPool;
use crate::pool::ObjectRef;
use crate::pool::OutputRectangle;
use crate::pool::PictureGraphic;
use crate::pool::WorkingSet;
use crate::render::spec_render;
use crate::render::spec_render_one_ref;
use crate::render::spec_render_refs;

verus! {

/// Visibility gating: a working set whose selectable flag is false
/// produces zero paint calls and leaves the cache untouched.
pub proof fn lemma_unselectable_working_set_renders_nothing(
    o: WorkingSet,
    pool: ObjectPool,
    px: int,
    py: int,
    fuel: nat,
    c: CacheView,
)
    requires
        !o.selectable,
    ensures
        spec_render(Object::WorkingSet(o), pool, px, py, fuel, c) == (Seq::<Cmd>::empty(), c),
{
}

/// Visibility gating: a hidden container produces zero paint calls, for
/// itself and all descendants, and leaves the cache untouched.
pub proof fn lemma_hidden_container_renders_nothing(
    o: Container,
    pool: ObjectPool,
    px: int,
    py: int,
    fuel: nat,
    c: CacheView,
)
    requires
        o.hidden,
    ensures
        spec_render(Object::Container(o), pool, px, py, fuel, c) == (Seq::<Cmd>::empty(), c),
{
}

/// Missing-reference tolerance: an output rectangle whose line-attributes
/// identifier does not resolve to line attributes produces exactly one
/// diagnostic paint and no rectangle paint, and leaves the cache
/// untouched.
pub proof fn lemma_missing_line_attributes_diagnostic(
    o: OutputRectangle,
    pool: ObjectPool,
    px: int,
    py: int,
    fuel: nat,
    c: CacheView,
)
    requires
        1 <= fuel,
        !(crate::pool::spec_object_by_id(pool.objects@, o.line_attributes) matches Some(
            Object::LineAttributes(_),
        )),
    ensures
        spec_render(Object::OutputRectangle(o), pool, px, py, fuel, c) == (
            seq![Cmd::Diagnostic { x: px, y: py, missing_id: o.line_attributes as int }],
            c,
        ),
{
}

/// Missing-reference tolerance: one broken child reference never blanks
/// its siblings.  A reference list renders as its first element followed
/// by the rest, whatever the first element produced — in particular a
/// sibling after a diagnostic still renders normally.
pub proof fn lemma_sibling_renders_after_failure(
    refs: Seq<ObjectRef>,
    pool: ObjectPool,
    px: int,
    py: int,
    fuel: nat,
    c: CacheView,
)
    requires
        refs.len() > 0,
    ensures
        ({
            let hd = spec_render_one_ref(refs[0], pool, px, py, fuel, c);
            let tl = spec_render_refs(refs.drop_first(), pool, px, py, fuel, hd.1);
            spec_render_refs(refs, pool, px, py, fuel, c) == (hd.0 + tl.0, tl.1)
        }),
{
}

/// Cache stability: rendering a picture graphic whose cache entry carries
/// its current content hash reuses the cached handle, decodes nothing and
/// leaves the cache exactly as it was.
pub proof fn lemma_unchanged_picture_reuses_cache(
    o: PictureGraphic,
    pool: ObjectPool,
    px: int,
    py: int,
    fuel: nat,
    c: CacheView,
    e: EntryView,
)
    requires
        1 <= fuel,
        spec_cache_lookup(c.entries, o.id) == Some(e),
        e.hash == spec_picture_hash(o),
    ensures
        spec_render(Object::PictureGraphic(o), pool, px, py, fuel, c) == (
            seq![
                Cmd::Image {
                    x: px,
                    y: py,
                    width: o.width as int,
                    height: spec_display_height(o),
                    handle: e.handle as int,
                },
            ],
            c,
        ),
{
}

/// Cache stability: a picture graphic whose content hash no longer matches
/// its cache entry (or that has none) is decoded anew: its raster is
/// stored under a fresh handle and the image paints under that handle.
pub proof fn lemma_changed_picture_redecodes(
    o: PictureGraphic,
    pool: ObjectPool,
    px: int,
    py: int,
    fuel: nat,
    c: CacheView,
)
    requires
        1 <= fuel,
        match spec_cache_lookup(c.entries, o.id) {
            Some(e) => e.hash != spec_picture_hash(o),
            None => true,
        },
    ensures
        spec_render(Object::PictureGraphic(o), pool, px, py, fuel, c) == (
            seq![
                Cmd::Image {
                    x: px,
                    y: py,
                    width: o.width as int,
                    height: spec_display_height(o),
                    handle: c.next_handle as int,
                },
            ],
            CacheView {
                entries: spec_cache_store(
                    c.entries,
                    o.id,
                    EntryView {
                        hash: spec_picture_hash(o),
                        handle: c.next_handle,
                        raster: crate::cache::RasterView {
                            width: o.actual_width as int,
                            height: o.actual_height as int,
                            pixels: spec_decoded_pixels(o, pool),
                        },
                    },
                ),
                next_handle: spec_next_handle(c.next_handle),
            },
        ),
{
}

} // verus!

use crate::render::spec_button_face_origin;
use crate::pool::spec_color_by_index;
use crate::pool::spec_object_by_id;

verus! {

/// The same paint call, shifted by a pixel offset.  Border emphasis has no
/// position and is unchanged.
pub open spec fn translate_cmd(cmd: Cmd, dx: int, dy: int) -> Cmd {
    match cmd {
        Cmd::FrameFill { x, y, colour } => Cmd::FrameFill { x: x + dx, y: y + dy, colour },
        Cmd::FillRect { x, y, width, height, colour } => Cmd::FillRect {
            x: x + dx,
            y: y + dy,
            width,
            height,
            colour,
        },
        Cmd::StrokeRect { x, y, width, height, line_width, colour } => Cmd::StrokeRect {
            x: x + dx,
            y: y + dy,
            width,
            height,
            line_width,
            colour,
        },
        Cmd::Text { x, y, colour, text } => Cmd::Text { x: x + dx, y: y + dy, colour, text },
        Cmd::Diagnostic { x, y, missing_id } => Cmd::Diagnostic {
            x: x + dx,
            y: y + dy,
            missing_id,
        },
        Cmd::SetBorderWidth { width } => Cmd::SetBorderWidth { width },
        Cmd::Image { x, y, width, height, handle } => Cmd::Image {
            x: x + dx,
            y: y + dy,
            width,
            height,
            handle,
        },
    }
}

/// A whole paint sequence, shifted by a pixel offset.
pub open spec fn translate_cmds(s: Seq<Cmd>, dx: int, dy: int) -> Seq<Cmd> {
    s.map_values(|cmd: Cmd| translate_cmd(cmd, dx, dy))
}

proof fn lemma_translate_empty(dx: int, dy: int)
    ensures
        translate_cmds(Seq::<Cmd>::empty(), dx, dy) == Seq::<Cmd>::empty(),
{
    assert(translate_cmds(Seq::<Cmd>::empty(), dx, dy) =~= Seq::<Cmd>::empty());
}

proof fn lemma_translate_add(a: Seq<Cmd>, b: Seq<Cmd>, dx: int, dy: int)
    ensures
        translate_cmds(a + b, dx, dy) == translate_cmds(a, dx, dy) + translate_cmds(b, dx, dy),
{
    assert(translate_cmds(a + b, dx, dy) =~= translate_cmds(a, dx, dy) + translate_cmds(
        b,
        dx,
        dy,
    ));
}

proof fn lemma_translate_one(a: Cmd, dx: int, dy: int)
    ensures
        translate_cmds(seq![a], dx, dy) == seq![translate_cmd(a, dx, dy)],
{
    assert(translate_cmds(seq![a], dx, dy) =~= seq![translate_cmd(a, dx, dy)]);
}

proof fn lemma_translate_two(a: Cmd, b: Cmd, dx: int, dy: int)
    ensures
        translate_cmds(seq![a, b], dx, dy) == seq![
            translate_cmd(a, dx, dy),
            translate_cmd(b, dx, dy),
        ],
{
    assert(translate_cmds(seq![a, b], dx, dy) =~= seq![
        translate_cmd(a, dx, dy),
        translate_cmd(b, dx, dy),
    ]);
}

/// Offset composition: rendering at a shifted position paints the same
/// commands, each shifted by exactly that offset, and drives the cache
/// identically.  Positions therefore accumulate additively over the whole
/// ancestor chain, at every nesting depth.
pub proof fn lemma_render_translated(
    obj: Object,
    pool: ObjectPool,
    px: int,
    py: int,
    dx: int,
    dy: int,
    fuel: nat,
    c: CacheView,
)
    ensures
        spec_render(obj, pool, px + dx, py + dy, fuel, c).0 == translate_cmds(
            spec_render(obj, pool, px, py, fuel, c).0,
            dx,
            dy,
        ),
        spec_render(obj, pool, px + dx, py + dy, fuel, c).1 == spec_render(
            obj,
            pool,
            px,
            py,
            fuel,
            c,
        ).1,
    decreases fuel, 1int, 0int,
{
    if fuel == 0 {
        lemma_translate_empty(dx, dy);
    } else {
        match obj {
            Object::WorkingSet(o) => {
                if o.selectable {
                    lemma_refs_translated(o.object_refs@, pool, px, py, dx, dy, (fuel - 1) as nat,
                        c);
                    let rest = spec_render_refs(o.object_refs@, pool, px, py, (fuel - 1) as nat, c);
                    let ff = Cmd::FrameFill {
                        x: px,
                        y: py,
                        colour: spec_color_by_index(pool, o.background_colour),
                    };
                    lemma_translate_one(ff, dx, dy);
                    lemma_translate_add(seq![ff], rest.0, dx, dy);
                } else {
                    lemma_translate_empty(dx, dy);
                }
            },
            Object::DataMask(o) => {
                lemma_refs_translated(o.object_refs@, pool, px, py, dx, dy, (fuel - 1) as nat, c);
                let rest = spec_render_refs(o.object_refs@, pool, px, py, (fuel - 1) as nat, c);
                let ff = Cmd::FrameFill {
                    x: px,
                    y: py,
                    colour: spec_color_by_index(pool, o.background_colour),
                };
                lemma_translate_one(ff, dx, dy);
                lemma_translate_add(seq![ff], rest.0, dx, dy);
            },
            Object::AlarmMask(o) => {
                lemma_refs_translated(o.object_refs@, pool, px, py, dx, dy, (fuel - 1) as nat, c);
                let rest = spec_render_refs(o.object_refs@, pool, px, py, (fuel - 1) as nat, c);
                let ff = Cmd::FrameFill {
                    x: px,
                    y: py,
                    colour: spec_color_by_index(pool, o.background_colour),
                };
                lemma_translate_one(ff, dx, dy);
                lemma_translate_add(seq![ff], rest.0, dx, dy);
            },
            Object::Container(o) => {
                if !o.hidden {
                    lemma_refs_translated(o.object_refs@, pool, px, py, dx, dy, (fuel - 1) as nat,
                        c);
                } else {
                    lemma_translate_empty(dx, dy);
                }
            },
            Object::Key(o) => {
                lemma_refs_translated(o.object_refs@, pool, px, py, dx, dy, (fuel - 1) as nat, c);
            },
            Object::Button(o) => {
                let fx = spec_button_face_origin(o, px);
                let fy = spec_button_face_origin(o, py);
                assert(spec_button_face_origin(o, px + dx) == fx + dx);
                assert(spec_button_face_origin(o, py + dy) == fy + dy);
                lemma_refs_translated(o.object_refs@, pool, fx, fy, dx, dy, (fuel - 1) as nat, c);
                let rest = spec_render_refs(o.object_refs@, pool, fx, fy, (fuel - 1) as nat, c);
                let bw = Cmd::SetBorderWidth {
                    width: if o.options.suppress_border {
                        0
                    } else {
                        crate::render::BUTTON_BORDER_WIDTH as int
                    },
                };
                if o.options.transparent_background {
                    lemma_translate_one(bw, dx, dy);
                    lemma_translate_add(seq![bw], rest.0, dx, dy);
                } else {
                    let face = Cmd::FillRect {
                        x: fx,
                        y: fy,
                        width: crate::render::spec_button_face_size(o, o.width as int),
                        height: crate::render::spec_button_face_size(o, o.height as int),
                        colour: spec_color_by_index(pool, o.background_colour),
                    };
                    lemma_translate_two(bw, face, dx, dy);
                    lemma_translate_add(seq![bw, face], rest.0, dx, dy);
                }
            },
            Object::ObjectPointer(o) => {
                match o.value {
                    None => {
                        lemma_translate_empty(dx, dy);
                    },
                    Some(id) => match spec_object_by_id(pool.objects@, id) {
                        Some(target) => {
                            lemma_render_translated(target, pool, px, py, dx, dy, (fuel - 1) as nat,
                                c);
                        },
                        None => {
                            lemma_translate_one(Cmd::Diagnostic {
                                x: px,
                                y: py,
                                missing_id: id as int,
                            }, dx, dy);
                        },
                    },
                }
            },
            Object::OutputString(o) => {
                match spec_object_by_id(pool.objects@, o.font_attributes) {
                    Some(Object::FontAttributes(fa)) => {
                        lemma_translate_one(Cmd::Text {
                            x: px,
                            y: py,
                            colour: spec_color_by_index(pool, fa.font_colour),
                            text: crate::render::spec_output_string_text(o, pool),
                        }, dx, dy);
                    },
                    _ => {
                        lemma_translate_one(Cmd::Diagnostic {
                            x: px,
                            y: py,
                            missing_id: o.font_attributes as int,
                        }, dx, dy);
                    },
                }
            },
            Object::OutputRectangle(o) => {
                match spec_object_by_id(pool.objects@, o.line_attributes) {
                    Some(Object::LineAttributes(la)) => {
                        let stroke = Cmd::StrokeRect {
                            x: px,
                            y: py,
                            width: o.width as int,
                            height: o.height as int,
                            line_width: la.line_width as int,
                            colour: spec_color_by_index(pool, la.line_colour),
                        };
                        match o.fill_attributes {
                            None => {
                                lemma_translate_one(stroke, dx, dy);
                            },
                            Some(fid) => match spec_object_by_id(pool.objects@, fid) {
                                Some(Object::FillAttributes(fa)) => {
                                    let fill = Cmd::FillRect {
                                        x: px + la.line_width as int,
                                        y: py + la.line_width as int,
                                        width: crate::render::spec_rect_fill_size(o.width as int,
                                            la.line_width as int),
                                        height: crate::render::spec_rect_fill_size(o.height as int,
                                            la.line_width as int),
                                        colour: spec_color_by_index(pool, fa.fill_colour),
                                    };
                                    lemma_translate_one(stroke, dx, dy);
                                    lemma_translate_two(stroke, fill, dx, dy);
                                },
                                _ => {
                                    lemma_translate_two(stroke, Cmd::Diagnostic {
                                        x: px,
                                        y: py,
                                        missing_id: fid as int,
                                    }, dx, dy);
                                },
                            },
                        }
                    },
                    _ => {
                        lemma_translate_one(Cmd::Diagnostic {
                            x: px,
                            y: py,
                            missing_id: o.line_attributes as int,
                        }, dx, dy);
                    },
                }
            },
            Object::PictureGraphic(o) => {
                let h = spec_picture_hash(o);
                match spec_cache_lookup(c.entries, o.id) {
                    Some(e) => {
                        if e.hash == h {
                            lemma_translate_one(Cmd::Image {
                                x: px,
                                y: py,
                                width: o.width as int,
                                height: spec_display_height(o),
                                handle: e.handle as int,
                            }, dx, dy);
                        } else {
                            lemma_translate_one(Cmd::Image {
                                x: px,
                                y: py,
                                width: o.width as int,
                                height: spec_display_height(o),
                                handle: c.next_handle as int,
                            }, dx, dy);
                        }
                    },
                    None => {
                        lemma_translate_one(Cmd::Image {
                            x: px,
                            y: py,
                            width: o.width as int,
                            height: spec_display_height(o),
                            handle: c.next_handle as int,
                        }, dx, dy);
                    },
                }
            },
            _ => {
                lemma_translate_empty(dx, dy);
            },
        }
    }
}

proof fn lemma_one_ref_translated(
    r: ObjectRef,
    pool: ObjectPool,
    px: int,
    py: int,
    dx: int,
    dy: int,
    fuel: nat,
    c: CacheView,
)
    ensures
        spec_render_one_ref(r, pool, px + dx, py + dy, fuel, c).0 == translate_cmds(
            spec_render_one_ref(r, pool, px, py, fuel, c).0,
            dx,
            dy,
        ),
        spec_render_one_ref(r, pool, px + dx, py + dy, fuel, c).1 == spec_render_one_ref(
            r,
            pool,
            px,
            py,
            fuel,
            c,
        ).1,
    decreases fuel, 2int, 0int,
{
    match spec_object_by_id(pool.objects@, r.id) {
        Some(o) => {
            lemma_render_translated(o, pool, px + r.offset.x as int, py + r.offset.y as int, dx,
                dy, fuel, c);
        },
        None => {
            lemma_translate_one(Cmd::Diagnostic { x: px, y: py, missing_id: r.id as int }, dx, dy);
        },
    }
}

proof fn lemma_refs_translated(
    refs: Seq<ObjectRef>,
    pool: ObjectPool,
    px: int,
    py: int,
    dx: int,
    dy: int,
    fuel: nat,
    c: CacheView,
)
    ensures
        spec_render_refs(refs, pool, px + dx, py + dy, fuel, c).0 == translate_cmds(
            spec_render_refs(refs, pool, px, py, fuel, c).0,
            dx,
            dy,
        ),
        spec_render_refs(refs, pool, px + dx, py + dy, fuel, c).1 == spec_render_refs(
            refs,
            pool,
            px,
            py,
            fuel,
            c,
        ).1,
    decreases fuel, 3int, refs.len(),
{
    if refs.len() == 0 {
        lemma_translate_empty(dx, dy);
    } else {
        lemma_one_ref_translated(refs[0], pool, px, py, dx, dy, fuel, c);
        let hd = spec_render_one_ref(refs[0], pool, px, py, fuel, c);
        lemma_refs_translated(refs.drop_first(), pool, px, py, dx, dy, fuel, hd.1);
        let tl = spec_render_refs(refs.drop_first(), pool, px, py, fuel, hd.1);
        lemma_translate_add(hd.0, tl.0, dx, dy);
    }
}

} // verus!

verus! {

/// The cache already holds a current entry for this picture.
pub open spec fn entry_current(c: CacheView, pg: PictureGraphic) -> bool {
    match spec_cache_lookup(c.entries, pg.id) {
        Some(e) => e.hash == spec_picture_hash(pg),
        None => false,
    }
}

/// The cache is settled for an object: every picture graphic a render pass
/// of the object visits already has a current entry, so the pass has
/// nothing to decode or store.
pub open spec fn spec_cache_settled(
    obj: Object,
    pool: ObjectPool,
    fuel: nat,
    c: CacheView,
) -> bool
    decreases fuel, 1int, 0int,
{
    if fuel == 0 {
        true
    } else {
        match obj {
            Object::WorkingSet(o) => !o.selectable || spec_cache_settled_refs(o.object_refs@,
                pool, (fuel - 1) as nat, c),
            Object::DataMask(o) => spec_cache_settled_refs(o.object_refs@, pool, (fuel - 1) as nat,
                c),
            Object::AlarmMask(o) => spec_cache_settled_refs(o.object_refs@, pool, (fuel
                - 1) as nat, c),
            Object::Container(o) => o.hidden || spec_cache_settled_refs(o.object_refs@, pool, (fuel
                - 1) as nat, c),
            Object::Key(o) => spec_cache_settled_refs(o.object_refs@, pool, (fuel - 1) as nat, c),
            Object::Button(o) => spec_cache_settled_refs(o.object_refs@, pool, (fuel - 1) as nat,
                c),
            Object::ObjectPointer(o) => match o.value {
                None => true,
                Some(id) => match spec_object_by_id(pool.objects@, id) {
                    Some(target) => spec_cache_settled(target, pool, (fuel - 1) as nat, c),
                    None => true,
                },
            },
            Object::PictureGraphic(o) => entry_current(c, o),
            _ => true,
        }
    }
}

/// The cache is settled for every child of a reference list.
pub open spec fn spec_cache_settled_refs(
    refs: Seq<ObjectRef>,
    pool: ObjectPool,
    fuel: nat,
    c: CacheView,
) -> bool
    decreases fuel, 3int, refs.len(),
{
    if refs.len() == 0 {
        true
    } else {
        let hd = match spec_object_by_id(pool.objects@, refs[0].id) {
            Some(o) => spec_cache_settled(o, pool, fuel, c),
            None => true,
        };
        hd && spec_cache_settled_refs(refs.drop_first(), pool, fuel, c)
    }
}

/// A render pass over a settled cache stores nothing: the cache comes back
/// exactly as it went in.
pub proof fn lemma_settled_render_preserves_cache(
    obj: Object,
    pool: ObjectPool,
    px: int,
    py: int,
    fuel: nat,
    c: CacheView,
)
    requires
        spec_cache_settled(obj, pool, fuel, c),
    ensures
        spec_render(obj, pool, px, py, fuel, c).1 == c,
    decreases fuel, 1int, 0int,
{
    if fuel != 0 {
        match obj {
            Object::WorkingSet(o) => {
                if o.selectable {
                    lemma_settled_refs_render_preserves_cache(o.object_refs@, pool, px, py, (fuel
                        - 1) as nat, c);
                }
            },
            Object::DataMask(o) => {
                lemma_settled_refs_render_preserves_cache(o.object_refs@, pool, px, py, (fuel
                    - 1) as nat, c);
            },
            Object::AlarmMask(o) => {
                lemma_settled_refs_render_preserves_cache(o.object_refs@, pool, px, py, (fuel
                    - 1) as nat, c);
            },
            Object::Container(o) => {
                if !o.hidden {
                    lemma_settled_refs_render_preserves_cache(o.object_refs@, pool, px, py, (fuel
                        - 1) as nat, c);
                }
            },
            Object::Key(o) => {
                lemma_settled_refs_render_preserves_cache(o.object_refs@, pool, px, py, (fuel
                    - 1) as nat, c);
            },
            Object::Button(o) => {
                lemma_settled_refs_render_preserves_cache(o.object_refs@, pool,
                    spec_button_face_origin(o, px), spec_button_face_origin(o, py), (fuel
                    - 1) as nat, c);
            },
            Object::ObjectPointer(o) => {
                match o.value {
                    None => {},
                    Some(id) => match spec_object_by_id(pool.objects@, id) {
                        Some(target) => {
                            lemma_settled_render_preserves_cache(target, pool, px, py, (fuel
                                - 1) as nat, c);
                        },
                        None => {},
                    },
                }
            },
            _ => {},
        }
    }
}

proof fn lemma_settled_refs_render_preserves_cache(
    refs: Seq<ObjectRef>,
    pool: ObjectPool,
    px: int,
    py: int,
    fuel: nat,
    c: CacheView,
)
    requires
        spec_cache_settled_refs(refs, pool, fuel, c),
    ensures
        spec_render_refs(refs, pool, px, py, fuel, c).1 == c,
    decreases fuel, 3int, refs.len(),
{
    if refs.len() != 0 {
        match spec_object_by_id(pool.objects@, refs[0].id) {
            Some(o) => {
                lemma_settled_render_preserves_cache(o, pool, px + refs[0].offset.x as int, py
                    + refs[0].offset.y as int, fuel, c);
            },
            None => {},
        }
        let hd = spec_render_one_ref(refs[0], pool, px, py, fuel, c);
        assert(hd.1 == c);
        lemma_settled_refs_render_preserves_cache(refs.drop_first(), pool, px, py, fuel, c);
        assert(spec_render_refs(refs.drop_first(), pool, px, py, fuel, hd.1).1 == c);
        assert(spec_render_refs(refs, pool, px, py, fuel, c).1 == spec_render_refs(
            refs.drop_first(),
            pool,
            px,
            py,
            fuel,
            hd.1,
        ).1);
    }
}

/// Round-trip idempotence: over a settled cache (the state any render pass
/// leaves behind once every visited picture is cached), rendering changes
/// nothing, so calling `render` twice with an unmodified pool and
/// unmodified cache state produces identical paint call sequences both
/// times — and identical cache states.
pub proof fn lemma_render_idempotent(
    obj: Object,
    pool: ObjectPool,
    px: int,
    py: int,
    fuel: nat,
    c: CacheView,
)
    requires
        spec_cache_settled(obj, pool, fuel, c),
    ensures
        ({
            let first = spec_render(obj, pool, px, py, fuel, c);
            let second = spec_render(obj, pool, px, py, fuel, first.1);
            first.1 == c && second == first
        }),
{
    lemma_settled_render_preserves_cache(obj, pool, px, py, fuel, c);
}

/// Offset composition, stated on a container: the commands of its first
/// child stand at the head of the container's own output, rendered at the
/// container's position plus the child's stored offset.  Together with
/// `lemma_render_translated` this pins every descendant's position to the
/// sum of the offsets along its ancestor chain.
pub proof fn lemma_offset_composition(
    ct: Container,
    pool: ObjectPool,
    px: int,
    py: int,
    fuel: nat,
    c: CacheView,
)
    requires
        !ct.hidden,
        1 <= fuel,
        ct.object_refs@.len() > 0,
    ensures
        ({
            let r = ct.object_refs@[0];
            let hd = spec_render_one_ref(r, pool, px, py, (fuel - 1) as nat, c);
            let body = spec_render(Object::Container(ct), pool, px, py, fuel, c);
            body.0.take(hd.0.len() as int) == hd.0
        }),
{
    let r = ct.object_refs@[0];
    let hd = spec_render_one_ref(r, pool, px, py, (fuel - 1) as nat, c);
    let tl = spec_render_refs(ct.object_refs@.drop_first(), pool, px, py, (fuel - 1) as nat, hd.1);
    let body = spec_render(Object::Container(ct), pool, px, py, fuel, c);
    let rr = spec_render_refs(ct.object_refs@, pool, px, py, (fuel - 1) as nat, c);
    assert(body.0 == rr.0);
    assert(rr.0 == hd.0 + tl.0);
    assert((hd.0 + tl.0).take(hd.0.len() as int) =~= hd.0);
}

} // verus!

verus! {

/// Every picture graphic stored in the pool embeds the identifier it is
/// stored under — the well-formedness a loaded pool has by construction,
/// since the wire format carries each object's identifier inside the
/// object.
pub open spec fn pool_pictures_keyed(pool: ObjectPool) -> bool {
    forall|id: u16|
        match #[trigger] spec_object_by_id(pool.objects@, id) {
            Some(Object::PictureGraphic(pg)) => pg.id == id,
            _ => true,
        }
}

/// A render root agrees with the pool about its own identifier: if it is
/// a picture graphic, the pool resolves its identifier to this very
/// object.  Children resolved out of a keyed pool have this by
/// construction.
pub open spec fn picture_coherent(obj: Object, pool: ObjectPool) -> bool {
    match obj {
        Object::PictureGraphic(pg) => spec_object_by_id(pool.objects@, pg.id) == Some(obj),
        _ => true,
    }
}

/// Cache `b` keeps, unchanged, every entry of `a` that is current for a
/// pool picture.
pub open spec fn entries_preserved(pool: ObjectPool, a: CacheView, b: CacheView) -> bool {
    forall|pg: PictureGraphic|
        spec_object_by_id(pool.objects@, pg.id) == Some(Object::PictureGraphic(pg))
            && #[trigger] entry_current(a, pg) ==> spec_cache_lookup(b.entries, pg.id)
            == spec_cache_lookup(a.entries, pg.id)
}

proof fn lemma_preserved_refl(pool: ObjectPool, a: CacheView)
    ensures
        entries_preserved(pool, a, a),
{
}

proof fn lemma_preserved_trans(pool: ObjectPool, a: CacheView, b: CacheView, c: CacheView)
    requires
        entries_preserved(pool, a, b),
        entries_preserved(pool, b, c),
    ensures
        entries_preserved(pool, a, c),
{
    assert forall|pg: PictureGraphic|
        spec_object_by_id(pool.objects@, pg.id) == Some(Object::PictureGraphic(pg))
            && #[trigger] entry_current(a, pg) implies spec_cache_lookup(c.entries, pg.id)
        == spec_cache_lookup(a.entries, pg.id) by {
        assert(spec_cache_lookup(b.entries, pg.id) == spec_cache_lookup(a.entries, pg.id));
        assert(entry_current(b, pg));
    }
}

proof fn lemma_lookup_after_store(s: Seq<(u16, EntryView)>, id: u16, e: EntryView)
    ensures
        spec_cache_lookup(spec_cache_store(s, id, e), id) == Some(e),
    decreases s.len(),
{
    if s.len() != 0 && s[0].0 != id {
        lemma_lookup_after_store(s.drop_first(), id, e);
        assert((seq![s[0]] + spec_cache_store(s.drop_first(), id, e)).drop_first()
            =~= spec_cache_store(s.drop_first(), id, e));
    } else {
    }
}

proof fn lemma_lookup_after_store_other(s: Seq<(u16, EntryView)>, id: u16, e: EntryView, other: u16)
    requires
        other != id,
    ensures
        spec_cache_lookup(spec_cache_store(s, id, e), other) == spec_cache_lookup(s, other),
    decreases s.len(),
{
    if s.len() == 0 {
        assert(spec_cache_store(s, id, e) == seq![(id, e)]);
        assert(seq![(id, e)][0].0 == id);
        assert(seq![(id, e)].drop_first() =~= Seq::<(u16, EntryView)>::empty());
        assert(spec_cache_lookup(seq![(id, e)], other) == spec_cache_lookup(
            seq![(id, e)].drop_first(),
            other,
        ));
    } else if s[0].0 == id {
        assert((seq![(id, e)] + s.drop_first())[0] == (id, e));
        assert((seq![(id, e)] + s.drop_first()).drop_first() =~= s.drop_first());
    } else {
        lemma_lookup_after_store_other(s.drop_first(), id, e, other);
        assert((seq![s[0]] + spec_cache_store(s.drop_first(), id, e))[0] == s[0]);
        assert((seq![s[0]] + spec_cache_store(s.drop_first(), id, e)).drop_first()
            =~= spec_cache_store(s.drop_first(), id, e));
    }
}

/// Settledness carries over to any cache that keeps the current entries
/// of the pool pictures.
proof fn lemma_settled_monotone(
    obj: Object,
    pool: ObjectPool,
    fuel: nat,
    a: CacheView,
    b: CacheView,
)
    requires
        pool_pictures_keyed(pool),
        picture_coherent(obj, pool),
        spec_cache_settled(obj, pool, fuel, a),
        entries_preserved(pool, a, b),
    ensures
        spec_cache_settled(obj, pool, fuel, b),
    decreases fuel, 1int, 0int,
{
    if fuel != 0 {
        match obj {
            Object::WorkingSet(o) => {
                if o.selectable {
                    lemma_settled_refs_monotone(o.object_refs@, pool, (fuel - 1) as nat, a, b);
                }
            },
            Object::DataMask(o) => {
                lemma_settled_refs_monotone(o.object_refs@, pool, (fuel - 1) as nat, a, b);
            },
            Object::AlarmMask(o) => {
                lemma_settled_refs_monotone(o.object_refs@, pool, (fuel - 1) as nat, a, b);
            },
            Object::Container(o) => {
                if !o.hidden {
                    lemma_settled_refs_monotone(o.object_refs@, pool, (fuel - 1) as nat, a, b);
                }
            },
            Object::Key(o) => {
                lemma_settled_refs_monotone(o.object_refs@, pool, (fuel - 1) as nat, a, b);
            },
            Object::Button(o) => {
                lemma_settled_refs_monotone(o.object_refs@, pool, (fuel - 1) as nat, a, b);
            },
            Object::ObjectPointer(o) => {
                match o.value {
                    None => {},
                    Some(id) => match spec_object_by_id(pool.objects@, id) {
                        Some(target) => {
                            lemma_settled_monotone(target, pool, (fuel - 1) as nat, a, b);
                        },
                        None => {},
                    },
                }
            },
            Object::PictureGraphic(pg) => {
                assert(entry_current(a, pg));
                assert(spec_cache_lookup(b.entries, pg.id) == spec_cache_lookup(a.entries, pg.id));
            },
            _ => {},
        }
    }
}

proof fn lemma_settled_refs_monotone(
    refs: Seq<ObjectRef>,
    pool: ObjectPool,
    fuel: nat,
    a: CacheView,
    b: CacheView,
)
    requires
        pool_pictures_keyed(pool),
        spec_cache_settled_refs(refs, pool, fuel, a),
        entries_preserved(pool, a, b),
    ensures
        spec_cache_settled_refs(refs, pool, fuel, b),
    decreases fuel, 3int, refs.len(),
{
    if refs.len() != 0 {
        match spec_object_by_id(pool.objects@, refs[0].id) {
            Some(o) => {
                assert(picture_coherent(o, pool));
                lemma_settled_monotone(o, pool, fuel, a, b);
            },
            None => {},
        }
        lemma_settled_refs_monotone(refs.drop_first(), pool, fuel, a, b);
    }
}

/// One render pass settles the cache for everything it visited, and keeps
/// every entry that was already current for a pool picture.
proof fn lemma_render_settles(
    obj: Object,
    pool: ObjectPool,
    px: int,
    py: int,
    fuel: nat,
    c: CacheView,
)
    requires
        pool_pictures_keyed(pool),
        picture_coherent(obj, pool),
    ensures
        spec_cache_settled(obj, pool, fuel, spec_render(obj, pool, px, py, fuel, c).1),
        entries_preserved(pool, c, spec_render(obj, pool, px, py, fuel, c).1),
    decreases fuel, 1int, 0int,
{
    let c1 = spec_render(obj, pool, px, py, fuel, c).1;
    if fuel == 0 {
        lemma_preserved_refl(pool, c);
    } else {
        match obj {
            Object::WorkingSet(o) => {
                if o.selectable {
                    lemma_refs_settle(o.object_refs@, pool, px, py, (fuel - 1) as nat, c);
                } else {
                    lemma_preserved_refl(pool, c);
                }
            },
            Object::DataMask(o) => {
                lemma_refs_settle(o.object_refs@, pool, px, py, (fuel - 1) as nat, c);
            },
            Object::AlarmMask(o) => {
                lemma_refs_settle(o.object_refs@, pool, px, py, (fuel - 1) as nat, c);
            },
            Object::Container(o) => {
                if !o.hidden {
                    lemma_refs_settle(o.object_refs@, pool, px, py, (fuel - 1) as nat, c);
                } else {
                    lemma_preserved_refl(pool, c);
                }
            },
            Object::Key(o) => {
                lemma_refs_settle(o.object_refs@, pool, px, py, (fuel - 1) as nat, c);
            },
            Object::Button(o) => {
                lemma_refs_settle(o.object_refs@, pool, spec_button_face_origin(o, px),
                    spec_button_face_origin(o, py), (fuel - 1) as nat, c);
            },
            Object::ObjectPointer(o) => {
                match o.value {
                    None => {
                        lemma_preserved_refl(pool, c);
                    },
                    Some(id) => match spec_object_by_id(pool.objects@, id) {
                        Some(target) => {
                            assert(picture_coherent(target, pool));
                            lemma_render_settles(target, pool, px, py, (fuel - 1) as nat, c);
                        },
                        None => {
                            lemma_preserved_refl(pool, c);
                        },
                    },
                }
            },
            Object::PictureGraphic(pg) => {
                let h = spec_picture_hash(pg);
                match spec_cache_lookup(c.entries, pg.id) {
                    Some(e) => {
                        if e.hash == h {
                            lemma_preserved_refl(pool, c);
                        } else {
                            lemma_picture_store_settles(pg, pool, c);
                        }
                    },
                    None => {
                        lemma_picture_store_settles(pg, pool, c);
                    },
                }
            },
            _ => {
                lemma_preserved_refl(pool, c);
            },
        }
    }
}

/// Storing a picture's fresh entry makes it current and touches no other
/// identifier.
proof fn lemma_picture_store_settles(pg: PictureGraphic, pool: ObjectPool, c: CacheView)
    requires
        pool_pictures_keyed(pool),
        picture_coherent(Object::PictureGraphic(pg), pool),
        !entry_current(c, pg),
    ensures
        ({
            let e = EntryView {
                hash: spec_picture_hash(pg),
                handle: c.next_handle,
                raster: crate::cache::RasterView {
                    width: pg.actual_width as int,
                    height: pg.actual_height as int,
                    pixels: spec_decoded_pixels(pg, pool),
                },
            };
            let c1 = CacheView {
                entries: spec_cache_store(c.entries, pg.id, e),
                next_handle: spec_next_handle(c.next_handle),
            };
            entry_current(c1, pg) && entries_preserved(pool, c, c1)
        }),
{
    let e = EntryView {
        hash: spec_picture_hash(pg),
        handle: c.next_handle,
        raster: crate::cache::RasterView {
            width: pg.actual_width as int,
            height: pg.actual_height as int,
            pixels: spec_decoded_pixels(pg, pool),
        },
    };
    let c1 = CacheView {
        entries: spec_cache_store(c.entries, pg.id, e),
        next_handle: spec_next_handle(c.next_handle),
    };
    lemma_lookup_after_store(c.entries, pg.id, e);
    assert forall|other: PictureGraphic|
        spec_object_by_id(pool.objects@, other.id) == Some(Object::PictureGraphic(other))
            && #[trigger] entry_current(c, other) implies spec_cache_lookup(c1.entries, other.id)
        == spec_cache_lookup(c.entries, other.id) by {
        if other.id == pg.id {
            assert(other == pg);
            assert(false);
        } else {
            lemma_lookup_after_store_other(c.entries, pg.id, e, other.id);
        }
    }
}

proof fn lemma_refs_settle(
    refs: Seq<ObjectRef>,
    pool: ObjectPool,
    px: int,
    py: int,
    fuel: nat,
    c: CacheView,
)
    requires
        pool_pictures_keyed(pool),
    ensures
        spec_cache_settled_refs(refs, pool, fuel, spec_render_refs(refs, pool, px, py, fuel, c).1),
        entries_preserved(pool, c, spec_render_refs(refs, pool, px, py, fuel, c).1),
    decreases fuel, 3int, refs.len(),
{
    if refs.len() == 0 {
        lemma_preserved_refl(pool, c);
    } else {
        let hd = spec_render_one_ref(refs[0], pool, px, py, fuel, c);
        let c1 = spec_render_refs(refs.drop_first(), pool, px, py, fuel, hd.1).1;
        match spec_object_by_id(pool.objects@, refs[0].id) {
            Some(o) => {
                assert(picture_coherent(o, pool));
                lemma_render_settles(o, pool, px + refs[0].offset.x as int, py
                    + refs[0].offset.y as int, fuel, c);
                lemma_refs_settle(refs.drop_first(), pool, px, py, fuel, hd.1);
                lemma_settled_monotone(o, pool, fuel, hd.1, c1);
                lemma_preserved_trans(pool, c, hd.1, c1);
            },
            None => {
                lemma_refs_settle(refs.drop_first(), pool, px, py, fuel, hd.1);
            },
        }
    }
}

/// Round-trip idempotence from any starting cache: the first render pass
/// brings the session cache to a fixed point, and from the second pass on
/// an unmodified pool and unmodified cache state repaint the identical
/// command sequence every time.
pub proof fn lemma_render_reaches_fixed_point(
    obj: Object,
    pool: ObjectPool,
    px: int,
    py: int,
    fuel: nat,
    c: CacheView,
)
    requires
        pool_pictures_keyed(pool),
        picture_coherent(obj, pool),
    ensures
        ({
            let first = spec_render(obj, pool, px, py, fuel, c);
            let second = spec_render(obj, pool, px, py, fuel, first.1);
            let third = spec_render(obj, pool, px, py, fuel, second.1);
            second.1 == first.1 && third == second
        }),
{
    let first = spec_render(obj, pool, px, py, fuel, c);
    lemma_render_settles(obj, pool, px, py, fuel, c);
    lemma_settled_render_preserves_cache(obj, pool, px, py, fuel, first.1);
}

} // verus!

use crate::picture::bytes_per_row;
use crate::picture::indices_per_byte;

verus! {

/// Byte boundaries never span rows: every source byte that a pixel of row
/// `y` reads lies inside row `y`'s own byte range, which starts at byte
/// `y * bytes_per_row` — so whatever indices a row leaves unused in its
/// last byte are discarded, never carried into the next row, and each row
/// starts decoding from the most significant slot of a fresh byte.
pub proof fn lemma_rows_use_disjoint_bytes(pg: PictureGraphic, x: int, y: int)
    requires
        0 <= x < pg.actual_width as int,
        0 <= y,
    ensures
        ({
            let w = pg.actual_width as int;
            let k = indices_per_byte(pg.format);
            let bpr = bytes_per_row(w, pg.format);
            y * bpr <= y * bpr + x / k < (y + 1) * bpr
        }),
{
    let w = pg.actual_width as int;
    let k = indices_per_byte(pg.format);
    let bpr = bytes_per_row(w, pg.format);
    vstd::arithmetic::div_mod::lemma_fundamental_div_mod(w + k - 1, k);
    vstd::arithmetic::div_mod::lemma_mod_pos_bound(w + k - 1, k);
    assert(k * bpr >= w);
    vstd::arithmetic::div_mod::lemma_multiply_divide_lt(x, k, bpr);
    vstd::arithmetic::div_mod::lemma_div_pos_is_pos(x, k);
    assert((y + 1) * bpr == y * bpr + bpr) by (nonlinear_arith);
}

} // verus!
