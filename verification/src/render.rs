//! The object renderer: one polymorphic operation, dispatched per object
//! kind.
//!
//! Container-like kinds recurse into their child references, each child at
//! its own relative offset from the parent's origin; leaf kinds paint
//! directly.  Rendering emits paint commands into a buffer and may update
//! the session cache (picture graphics only); those are its only effects.
//!
//! The meaning of a render pass is the spec function [`spec_render`]: a
//! mathematical map from (object, pool, position, cache) to the emitted
//! command sequence and the cache afterwards.  Recursion depth is capped at
//! [`MAX_RENDER_DEPTH`]; a deeper subtree (only reachable through a
//! reference cycle, which the object-pool format does not allow) renders
//! nothing beyond the cap.

use vstd::prelude::*;

use crate::cache::CacheView;
use crate::cache::EntryView;
use crate::cache::RasterView;
use crate::cache::SessionCache;
use crate::cache::spec_cache_lookup;
use crate::cache::spec_cache_store;
use crate::cache::spec_next_handle;
use crate::commands::Cmd;
use crate::commands::DrawCommand;
use crate::commands::cmd_views;
use crate::picture::spec_decoded_pixels;
use crate::picture::spec_display_height;
use crate::picture::spec_picture_hash;
use crate::pool::AlarmMask;
use crate::pool::Button;
use crate::pool::Container;
use crate::pool::DataMask;
use crate::pool::Key;
use crate::pool::Object;
use crate::pool::ObjectPointer;
use crate::pool::ObjectPool;
use crate::pool::ObjectRef;
use crate::pool::OutputRectangle;
use crate::pool::OutputString;
use crate::pool::PictureGraphic;
use crate::pool::Point;
use crate::pool::WorkingSet;
use crate::pool::spec_color_by_index;
use crate::pool::spec_object_by_id;

verus! {

/// Maximum recursion depth of one render pass.
pub const MAX_RENDER_DEPTH: u32 = 64;

/// Pixel width of the border drawn around a button, and of the inset of
/// its face rectangle.
pub const BUTTON_BORDER_WIDTH: u16 = 4;

/// The largest coordinate magnitude a subtree at the given remaining fuel
/// can reach: positions accumulate one relative offset (and at most a
/// border inset) per level.
pub open spec fn pos_bound(fuel: int) -> int {
    0x1000_0000 + (MAX_RENDER_DEPTH as int - fuel) * 0x9000
}

/// Accumulated positions handed to a node at the given remaining fuel stay
/// in this range, so coordinate arithmetic never overflows.
pub open spec fn pos_ok(p: int, fuel: int) -> bool {
    -pos_bound(fuel) <= p <= pos_bound(fuel)
}

/// Positions handed to a child-reference list: the parent may have shifted
/// its origin by a border inset before recursing.
pub open spec fn refs_pos_ok(p: int, fuel: int) -> bool {
    -(pos_bound(fuel + 1) + 0x1000) <= p <= pos_bound(fuel + 1) + 0x1000
}

/// What rendering one child reference emits: the child's own rendering at
/// the accumulated offset when its identifier resolves, one diagnostic
/// placeholder when it does not.
pub open spec fn spec_render_one_ref(
    r: ObjectRef,
    pool: ObjectPool,
    px: int,
    py: int,
    fuel: nat,
    c: CacheView,
) -> (Seq<Cmd>, CacheView)
    decreases fuel, 2int, 0int,
{
    match spec_object_by_id(pool.objects@, r.id) {
        Some(o) => spec_render(o, pool, px + r.offset.x as int, py + r.offset.y as int, fuel, c),
        None => (seq![Cmd::Diagnostic { x: px, y: py, missing_id: r.id as int }], c),
    }
}

/// What rendering an ordered child-reference list emits: each child in list
/// order, the cache threaded left to right.
pub open spec fn spec_render_refs(
    refs: Seq<ObjectRef>,
    pool: ObjectPool,
    px: int,
    py: int,
    fuel: nat,
    c: CacheView,
) -> (Seq<Cmd>, CacheView)
    decreases fuel, 3int, refs.len(),
{
    if refs.len() == 0 {
        (Seq::empty(), c)
    } else {
        let hd = spec_render_one_ref(refs[0], pool, px, py, fuel, c);
        let tl = spec_render_refs(refs.drop_first(), pool, px, py, fuel, hd.1);
        (hd.0 + tl.0, tl.1)
    }
}

/// What rendering an object at an accumulated position emits, and the cache
/// afterwards.  This is the renderer's whole meaning; every executable
/// render function is proved against it.
pub open spec fn spec_render(
    obj: Object,
    pool: ObjectPool,
    px: int,
    py: int,
    fuel: nat,
    c: CacheView,
) -> (Seq<Cmd>, CacheView)
    decreases fuel, 1int, 0int,
{
    if fuel == 0 {
        (Seq::empty(), c)
    } else {
        match obj {
            Object::WorkingSet(o) => spec_render_working_set(o, pool, px, py, fuel, c),
            Object::DataMask(o) => spec_render_data_mask(o, pool, px, py, fuel, c),
            Object::AlarmMask(o) => spec_render_alarm_mask(o, pool, px, py, fuel, c),
            Object::Container(o) => spec_render_container(o, pool, px, py, fuel, c),
            Object::Key(o) => spec_render_key(o, pool, px, py, fuel, c),
            Object::Button(o) => spec_render_button(o, pool, px, py, fuel, c),
            Object::ObjectPointer(o) => spec_render_object_pointer(o, pool, px, py, fuel, c),
            Object::OutputString(o) => spec_render_output_string(o, pool, px, py, c),
            Object::OutputRectangle(o) => spec_render_output_rectangle(o, pool, px, py, c),
            Object::PictureGraphic(o) => spec_render_picture_graphic(o, pool, px, py, c),
            _ => (Seq::empty(), c),
        }
    }
}

/// A working set paints its background and renders its children; with the
/// selectable flag false it is not rendered at all — the top-level
/// visibility gate.
pub open spec fn spec_render_working_set(
    o: WorkingSet,
    pool: ObjectPool,
    px: int,
    py: int,
    fuel: nat,
    c: CacheView,
) -> (Seq<Cmd>, CacheView)
    decreases fuel, 0int, 0int,
    when fuel >= 1
{
    if !o.selectable {
        (Seq::empty(), c)
    } else {
        let rest = spec_render_refs(o.object_refs@, pool, px, py, (fuel - 1) as nat, c);
        (
            seq![
                Cmd::FrameFill {
                    x: px,
                    y: py,
                    colour: spec_color_by_index(pool, o.background_colour),
                },
            ] + rest.0,
            rest.1,
        )
    }
}

/// A data mask paints its background and renders its children.
pub open spec fn spec_render_data_mask(
    o: DataMask,
    pool: ObjectPool,
    px: int,
    py: int,
    fuel: nat,
    c: CacheView,
) -> (Seq<Cmd>, CacheView)
    decreases fuel, 0int, 0int,
    when fuel >= 1
{
    let rest = spec_render_refs(o.object_refs@, pool, px, py, (fuel - 1) as nat, c);
    (
        seq![
            Cmd::FrameFill { x: px, y: py, colour: spec_color_by_index(pool, o.background_colour) },
        ] + rest.0,
        rest.1,
    )
}

/// An alarm mask renders like a data mask.
pub open spec fn spec_render_alarm_mask(
    o: AlarmMask,
    pool: ObjectPool,
    px: int,
    py: int,
    fuel: nat,
    c: CacheView,
) -> (Seq<Cmd>, CacheView)
    decreases fuel, 0int, 0int,
    when fuel >= 1
{
    let rest = spec_render_refs(o.object_refs@, pool, px, py, (fuel - 1) as nat, c);
    (
        seq![
            Cmd::FrameFill { x: px, y: py, colour: spec_color_by_index(pool, o.background_colour) },
        ] + rest.0,
        rest.1,
    )
}

/// A hidden container renders nothing, itself and all descendants;
/// otherwise it renders its children inside its sub-region.  The
/// sub-region's extent (the container's width and height) affects only
/// surface-side layout, never clipping, so it appears in no paint
/// command; children paint at the container's accumulated position plus
/// their own offsets.
pub open spec fn spec_render_container(
    o: Container,
    pool: ObjectPool,
    px: int,
    py: int,
    fuel: nat,
    c: CacheView,
) -> (Seq<Cmd>, CacheView)
    decreases fuel, 0int, 0int,
    when fuel >= 1
{
    if o.hidden {
        (Seq::empty(), c)
    } else {
        spec_render_refs(o.object_refs@, pool, px, py, (fuel - 1) as nat, c)
    }
}

/// A key establishes an interactive region whose true size is
/// host-defined, so no extent appears in the command stream; its children
/// render inside at their stored offsets.
pub open spec fn spec_render_key(
    o: Key,
    pool: ObjectPool,
    px: int,
    py: int,
    fuel: nat,
    c: CacheView,
) -> (Seq<Cmd>, CacheView)
    decreases fuel, 0int, 0int,
    when fuel >= 1
{
    spec_render_refs(o.object_refs@, pool, px, py, (fuel - 1) as nat, c)
}

/// The origin of a button's face: inset by the border width unless the
/// no-border option is set.
pub open spec fn spec_button_face_origin(o: Button, p: int) -> int {
    if o.options.no_border {
        p
    } else {
        p + BUTTON_BORDER_WIDTH as int
    }
}

/// The size of a button's face along one axis: shrunk by the border width
/// on both sides unless the no-border option is set, never below zero.
pub open spec fn spec_button_face_size(o: Button, size: int) -> int {
    if o.options.no_border {
        size
    } else if size >= 2 * BUTTON_BORDER_WIDTH as int {
        size - 2 * BUTTON_BORDER_WIDTH as int
    } else {
        0
    }
}

/// A button sets the surface's border emphasis (zero when suppressed),
/// paints its face unless transparent, and renders its children inside the
/// face.
pub open spec fn spec_render_button(
    o: Button,
    pool: ObjectPool,
    px: int,
    py: int,
    fuel: nat,
    c: CacheView,
) -> (Seq<Cmd>, CacheView)
    decreases fuel, 0int, 0int,
    when fuel >= 1
{
    let fx = spec_button_face_origin(o, px);
    let fy = spec_button_face_origin(o, py);
    let head = if o.options.transparent_background {
        seq![
            Cmd::SetBorderWidth {
                width: if o.options.suppress_border {
                    0
                } else {
                    BUTTON_BORDER_WIDTH as int
                },
            },
        ]
    } else {
        seq![
            Cmd::SetBorderWidth {
                width: if o.options.suppress_border {
                    0
                } else {
                    BUTTON_BORDER_WIDTH as int
                },
            },
            Cmd::FillRect {
                x: fx,
                y: fy,
                width: spec_button_face_size(o, o.width as int),
                height: spec_button_face_size(o, o.height as int),
                colour: spec_color_by_index(pool, o.background_colour),
            },
        ]
    };
    let rest = spec_render_refs(o.object_refs@, pool, fx, fy, (fuel - 1) as nat, c);
    (head + rest.0, rest.1)
}

/// An object pointer with no target renders nothing; otherwise it renders
/// the pointed-to object at the same position, or one diagnostic when the
/// target identifier does not resolve.
pub open spec fn spec_render_object_pointer(
    o: ObjectPointer,
    pool: ObjectPool,
    px: int,
    py: int,
    fuel: nat,
    c: CacheView,
) -> (Seq<Cmd>, CacheView)
    decreases fuel, 0int, 0int,
    when fuel >= 1
{
    match o.value {
        None => (Seq::empty(), c),
        Some(id) => match spec_object_by_id(pool.objects@, id) {
            Some(target) => spec_render(target, pool, px, py, (fuel - 1) as nat, c),
            None => (seq![Cmd::Diagnostic { x: px, y: py, missing_id: id as int }], c),
        },
    }
}

/// The text an output string displays: the value of its referenced string
/// variable when the reference is set and resolves to one, else the
/// object's own literal value.
pub open spec fn spec_output_string_text(o: OutputString, pool: ObjectPool) -> Seq<char> {
    match o.variable_reference {
        Some(vid) => match spec_object_by_id(pool.objects@, vid) {
            Some(Object::StringVariable(sv)) => sv.value@,
            _ => o.value@,
        },
        None => o.value@,
    }
}

/// An output string needs its font attributes: on failure to resolve them
/// it emits one diagnostic and stops; otherwise it paints its text in the
/// font colour.
pub open spec fn spec_render_output_string(
    o: OutputString,
    pool: ObjectPool,
    px: int,
    py: int,
    c: CacheView,
) -> (Seq<Cmd>, CacheView) {
    match spec_object_by_id(pool.objects@, o.font_attributes) {
        Some(Object::FontAttributes(fa)) => (
            seq![
                Cmd::Text {
                    x: px,
                    y: py,
                    colour: spec_color_by_index(pool, fa.font_colour),
                    text: spec_output_string_text(o, pool),
                },
            ],
            c,
        ),
        _ => (seq![Cmd::Diagnostic { x: px, y: py, missing_id: o.font_attributes as int }], c),
    }
}

/// The size of an output rectangle's interior along one axis: the border
/// stroke inset on both sides, never below zero.
pub open spec fn spec_rect_fill_size(size: int, line_width: int) -> int {
    if size >= 2 * line_width {
        size - 2 * line_width
    } else {
        0
    }
}

/// An output rectangle needs its line attributes: on failure it emits one
/// diagnostic and stops.  Otherwise it strokes its border; a set
/// fill-attributes reference then fills the interior, or emits one
/// diagnostic after the stroke when it does not resolve.
pub open spec fn spec_render_output_rectangle(
    o: OutputRectangle,
    pool: ObjectPool,
    px: int,
    py: int,
    c: CacheView,
) -> (Seq<Cmd>, CacheView) {
    match spec_object_by_id(pool.objects@, o.line_attributes) {
        Some(Object::LineAttributes(la)) => {
            let stroke = Cmd::StrokeRect {
                x: px,
                y: py,
                width: o.width as int,
                height: o.height as int,
                line_width: la.line_width as int,
                colour: spec_color_by_index(pool, la.line_colour),
            };
            match o.fill_attributes {
                None => (seq![stroke], c),
                Some(fid) => match spec_object_by_id(pool.objects@, fid) {
                    Some(Object::FillAttributes(fa)) => (
                        seq![
                            stroke,
                            Cmd::FillRect {
                                x: px + la.line_width as int,
                                y: py + la.line_width as int,
                                width: spec_rect_fill_size(o.width as int, la.line_width as int),
                                height: spec_rect_fill_size(o.height as int, la.line_width as int),
                                colour: spec_color_by_index(pool, fa.fill_colour),
                            },
                        ],
                        c,
                    ),
                    _ => (
                        seq![stroke, Cmd::Diagnostic { x: px, y: py, missing_id: fid as int }],
                        c,
                    ),
                },
            }
        },
        _ => (seq![Cmd::Diagnostic { x: px, y: py, missing_id: o.line_attributes as int }], c),
    }
}

/// A picture graphic reuses the cached raster when the cache holds its
/// identifier under an unchanged content hash; otherwise it decodes, stores
/// the raster under a fresh handle, and advances the handle counter.
/// Either way it paints one image command sized to its display rectangle.
pub open spec fn spec_render_picture_graphic(
    o: PictureGraphic,
    pool: ObjectPool,
    px: int,
    py: int,
    c: CacheView,
) -> (Seq<Cmd>, CacheView) {
    let h = spec_picture_hash(o);
    let hit = match spec_cache_lookup(c.entries, o.id) {
        Some(e) => if e.hash == h {
            Some(e.handle)
        } else {
            None
        },
        None => None,
    };
    match hit {
        Some(handle) => (
            seq![
                Cmd::Image {
                    x: px,
                    y: py,
                    width: o.width as int,
                    height: spec_display_height(o),
                    handle: handle as int,
                },
            ],
            c,
        ),
        None => {
            let handle = c.next_handle;
            let entry = EntryView {
                hash: h,
                handle,
                raster: RasterView {
                    width: o.actual_width as int,
                    height: o.actual_height as int,
                    pixels: spec_decoded_pixels(o, pool),
                },
            };
            (
                seq![
                    Cmd::Image {
                        x: px,
                        y: py,
                        width: o.width as int,
                        height: spec_display_height(o),
                        handle: handle as int,
                    },
                ],
                CacheView {
                    entries: spec_cache_store(c.entries, o.id, entry),
                    next_handle: spec_next_handle(c.next_handle),
                },
            )
        },
    }
}

/// The command buffer grew from `old_out` to `new_out` by exactly the
/// mathematical paint calls `cmds`, in order, touching nothing before them.
pub open spec fn render_emitted(
    old_out: Seq<DrawCommand>,
    new_out: Seq<DrawCommand>,
    cmds: Seq<Cmd>,
) -> bool {
    &&& new_out.len() >= old_out.len()
    &&& new_out.take(old_out.len() as int) == old_out
    &&& cmd_views(new_out.skip(old_out.len() as int)) == cmds
}

/// An unchanged buffer emitted nothing.
pub proof fn lemma_emitted_refl(s: Seq<DrawCommand>)
    ensures
        render_emitted(s, s, Seq::<Cmd>::empty()),
{
    assert(s.take(s.len() as int) =~= s);
    assert(s.skip(s.len() as int) =~= Seq::<DrawCommand>::empty());
    assert(cmd_views(s.skip(s.len() as int)) =~= Seq::<Cmd>::empty());
}

/// A single push emits the view of the pushed command.
pub proof fn lemma_emitted_push(old0: Seq<DrawCommand>, fin: Seq<DrawCommand>, d: DrawCommand)
    requires
        fin == old0.push(d),
    ensures
        render_emitted(old0, fin, seq![d@]),
{
    assert(fin.take(old0.len() as int) =~= old0);
    assert(fin.skip(old0.len() as int) =~= seq![d]);
    assert(cmd_views(seq![d]) =~= seq![d@]);
}

/// Two pushes emit the views of both commands, in order.
pub proof fn lemma_emitted_push2(
    old0: Seq<DrawCommand>,
    fin: Seq<DrawCommand>,
    d1: DrawCommand,
    d2: DrawCommand,
)
    requires
        fin == old0.push(d1).push(d2),
    ensures
        render_emitted(old0, fin, seq![d1@, d2@]),
{
    assert(fin.take(old0.len() as int) =~= old0);
    assert(fin.skip(old0.len() as int) =~= seq![d1, d2]);
    assert(cmd_views(seq![d1, d2]) =~= seq![d1@, d2@]);
}

/// Emission composes: two successive growths emit the concatenation.
pub proof fn lemma_emitted_trans(
    old0: Seq<DrawCommand>,
    mid: Seq<DrawCommand>,
    fin: Seq<DrawCommand>,
    a: Seq<Cmd>,
    b: Seq<Cmd>,
)
    requires
        render_emitted(old0, mid, a),
        render_emitted(mid, fin, b),
    ensures
        render_emitted(old0, fin, a + b),
{
    assert forall|i: int| 0 <= i < mid.len() implies fin[i] == mid[i] by {
        assert(fin.take(mid.len() as int)[i] == fin[i]);
    }
    assert forall|i: int| 0 <= i < old0.len() implies mid[i] == old0[i] by {
        assert(mid.take(old0.len() as int)[i] == mid[i]);
    }
    assert(fin.take(old0.len() as int) =~= old0);
    assert(fin.skip(old0.len() as int) =~= mid.skip(old0.len() as int) + fin.skip(
        mid.len() as int,
    ));
    assert(cmd_views(mid.skip(old0.len() as int) + fin.skip(mid.len() as int)) =~= cmd_views(
        mid.skip(old0.len() as int),
    ) + cmd_views(fin.skip(mid.len() as int)));
}

/// Rendering a list extended by one reference renders the list, then the
/// new reference against the threaded cache.
pub proof fn lemma_render_refs_snoc(
    refs: Seq<ObjectRef>,
    r: ObjectRef,
    pool: ObjectPool,
    px: int,
    py: int,
    fuel: nat,
    c: CacheView,
)
    ensures
        ({
            let whole = spec_render_refs(refs.push(r), pool, px, py, fuel, c);
            let front = spec_render_refs(refs, pool, px, py, fuel, c);
            let one = spec_render_one_ref(r, pool, px, py, fuel, front.1);
            whole.0 == front.0 + one.0 && whole.1 == one.1
        }),
    decreases refs.len(),
{
    reveal_with_fuel(spec_render_refs, 3);
    let whole = spec_render_refs(refs.push(r), pool, px, py, fuel, c);
    let front = spec_render_refs(refs, pool, px, py, fuel, c);
    if refs.len() == 0 {
        let one = spec_render_one_ref(r, pool, px, py, fuel, c);
        assert(refs.push(r)[0] == r);
        assert(refs.push(r).drop_first() =~= Seq::<ObjectRef>::empty());
        assert(whole.0 =~= one.0 + Seq::<Cmd>::empty());
        assert(front.0 =~= Seq::<Cmd>::empty());
        assert(whole.0 =~= front.0 + one.0);
    } else {
        assert(refs.push(r)[0] == refs[0]);
        assert(refs.push(r).drop_first() =~= refs.drop_first().push(r));
        let hd = spec_render_one_ref(refs[0], pool, px, py, fuel, c);
        lemma_render_refs_snoc(refs.drop_first(), r, pool, px, py, fuel, hd.1);
        let front2 = spec_render_refs(refs.drop_first(), pool, px, py, fuel, hd.1);
        let one = spec_render_one_ref(r, pool, px, py, fuel, front2.1);
        assert(front.1 == front2.1);
        assert(whole.0 =~= hd.0 + (front2.0 + one.0));
        assert(front.0 =~= hd.0 + front2.0);
        assert(whole.0 =~= front.0 + one.0);
    }
}

/// Renders each child reference of a list in order: the child at its
/// stored offset from the list's origin when it resolves, one diagnostic
/// placeholder when it does not.  Sibling content renders regardless of
/// earlier failures.
#[verifier::loop_isolation(false)]
pub fn render_object_refs(
    refs: &Vec<ObjectRef>,
    pool: &ObjectPool,
    px: i32,
    py: i32,
    fuel: u32,
    cache: &mut SessionCache,
    out: &mut Vec<DrawCommand>,
)
    requires
        fuel < MAX_RENDER_DEPTH,
        refs_pos_ok(px as int, fuel as int),
        refs_pos_ok(py as int, fuel as int),
    ensures
        ({
            let r = spec_render_refs(refs@, *pool, px as int, py as int, fuel as nat, old(cache)@);
            render_emitted(old(out)@, final(out)@, r.0) && final(cache)@ == r.1
        }),
    decreases fuel, 2int,
{
    let ghost out0 = out@;
    let ghost c0 = cache@;
    proof {
        assert(refs@.take(0) =~= Seq::<ObjectRef>::empty());
        lemma_emitted_refl(out@);
    }
    let n = refs.len();
    let mut i: usize = 0;
    while i < n
        invariant
            i <= n,
            n == refs@.len(),
            ({
                let r = spec_render_refs(refs@.take(i as int), *pool, px as int, py as int,
                    fuel as nat, c0);
                render_emitted(out0, out@, r.0) && cache@ == r.1
            }),
        decreases n - i,
    {
        let ghost mid = out@;
        let ghost cmid = cache@;
        let r = refs[i];
        match pool.object_by_id(r.id) {
            Some(obj) => {
                obj.render_at(pool, px + r.offset.x as i32, py + r.offset.y as i32, fuel, cache,
                    out);
            },
            None => {
                out.push(DrawCommand::Diagnostic { x: px, y: py, missing_id: r.id });
                proof {
                    lemma_emitted_push(mid, out@, DrawCommand::Diagnostic {
                        x: px,
                        y: py,
                        missing_id: r.id,
                    });
                }
            },
        }
        proof {
            let one = spec_render_one_ref(refs@[i as int], *pool, px as int, py as int, fuel as nat,
                cmid);
            assert(render_emitted(mid, out@, one.0) && cache@ == one.1);
            lemma_render_refs_snoc(refs@.take(i as int), refs@[i as int], *pool, px as int,
                py as int, fuel as nat, c0);
            assert(refs@.take(i as int + 1) =~= refs@.take(i as int).push(refs@[i as int]));
            let front = spec_render_refs(refs@.take(i as int), *pool, px as int, py as int,
                fuel as nat, c0);
            lemma_emitted_trans(out0, mid, out@, front.0, one.0);
        }
        i = i + 1;
    }
    proof {
        assert(refs@.take(n as int) =~= refs@);
    }
}

impl WorkingSet {
    /// Paints the working set's background and children, or nothing at all
    /// when the selectable flag is false.
    pub fn render(
        &self,
        pool: &ObjectPool,
        px: i32,
        py: i32,
        fuel: u32,
        cache: &mut SessionCache,
        out: &mut Vec<DrawCommand>,
    )
        requires
            1 <= fuel <= MAX_RENDER_DEPTH,
            pos_ok(px as int, fuel as int),
            pos_ok(py as int, fuel as int),
        ensures
            ({
                let r = spec_render_working_set(*self, *pool, px as int, py as int, fuel as nat,
                    old(cache)@);
                render_emitted(old(out)@, final(out)@, r.0) && final(cache)@ == r.1
            }),
        decreases fuel, 0int,
    {
        if !self.selectable {
            proof {
                lemma_emitted_refl(out@);
            }
            return ;
        }
        let ghost out0 = out@;
        let d = DrawCommand::FrameFill {
            x: px,
            y: py,
            colour: pool.color_by_index(self.background_colour),
        };
        let ghost dv = d;
        out.push(d);
        let ghost mid = out@;
        render_object_refs(&self.object_refs, pool, px, py, fuel - 1, cache, out);
        proof {
            let rest = spec_render_refs(self.object_refs@, *pool, px as int, py as int, (fuel
                - 1) as nat, old(cache)@);
            lemma_emitted_push(out0, mid, dv);
            lemma_emitted_trans(out0, mid, out@, seq![dv@], rest.0);
        }
    }
}

impl DataMask {
    /// Paints the mask's background, then each child at its offset.
    pub fn render(
        &self,
        pool: &ObjectPool,
        px: i32,
        py: i32,
        fuel: u32,
        cache: &mut SessionCache,
        out: &mut Vec<DrawCommand>,
    )
        requires
            1 <= fuel <= MAX_RENDER_DEPTH,
            pos_ok(px as int, fuel as int),
            pos_ok(py as int, fuel as int),
        ensures
            ({
                let r = spec_render_data_mask(*self, *pool, px as int, py as int, fuel as nat,
                    old(cache)@);
                render_emitted(old(out)@, final(out)@, r.0) && final(cache)@ == r.1
            }),
        decreases fuel, 0int,
    {
        let ghost out0 = out@;
        let d = DrawCommand::FrameFill {
            x: px,
            y: py,
            colour: pool.color_by_index(self.background_colour),
        };
        let ghost dv = d;
        out.push(d);
        let ghost mid = out@;
        render_object_refs(&self.object_refs, pool, px, py, fuel - 1, cache, out);
        proof {
            let rest = spec_render_refs(self.object_refs@, *pool, px as int, py as int, (fuel
                - 1) as nat, old(cache)@);
            lemma_emitted_push(out0, mid, dv);
            lemma_emitted_trans(out0, mid, out@, seq![dv@], rest.0);
        }
    }
}

impl AlarmMask {
    /// Paints the mask's background, then each child at its offset.
    pub fn render(
        &self,
        pool: &ObjectPool,
        px: i32,
        py: i32,
        fuel: u32,
        cache: &mut SessionCache,
        out: &mut Vec<DrawCommand>,
    )
        requires
            1 <= fuel <= MAX_RENDER_DEPTH,
            pos_ok(px as int, fuel as int),
            pos_ok(py as int, fuel as int),
        ensures
            ({
                let r = spec_render_alarm_mask(*self, *pool, px as int, py as int, fuel as nat,
                    old(cache)@);
                render_emitted(old(out)@, final(out)@, r.0) && final(cache)@ == r.1
            }),
        decreases fuel, 0int,
    {
        let ghost out0 = out@;
        let d = DrawCommand::FrameFill {
            x: px,
            y: py,
            colour: pool.color_by_index(self.background_colour),
        };
        let ghost dv = d;
        out.push(d);
        let ghost mid = out@;
        render_object_refs(&self.object_refs, pool, px, py, fuel - 1, cache, out);
        proof {
            let rest = spec_render_refs(self.object_refs@, *pool, px as int, py as int, (fuel
                - 1) as nat, old(cache)@);
            lemma_emitted_push(out0, mid, dv);
            lemma_emitted_trans(out0, mid, out@, seq![dv@], rest.0);
        }
    }
}

impl Container {
    /// Renders the container's children inside its sub-region, or nothing
    /// at all when hidden.
    pub fn render(
        &self,
        pool: &ObjectPool,
        px: i32,
        py: i32,
        fuel: u32,
        cache: &mut SessionCache,
        out: &mut Vec<DrawCommand>,
    )
        requires
            1 <= fuel <= MAX_RENDER_DEPTH,
            pos_ok(px as int, fuel as int),
            pos_ok(py as int, fuel as int),
        ensures
            ({
                let r = spec_render_container(*self, *pool, px as int, py as int, fuel as nat,
                    old(cache)@);
                render_emitted(old(out)@, final(out)@, r.0) && final(cache)@ == r.1
            }),
        decreases fuel, 0int,
    {
        if self.hidden {
            proof {
                lemma_emitted_refl(out@);
            }
            return ;
        }
        render_object_refs(&self.object_refs, pool, px, py, fuel - 1, cache, out);
    }
}

impl Key {
    /// Renders the key's children inside its fixed-size region.
    pub fn render(
        &self,
        pool: &ObjectPool,
        px: i32,
        py: i32,
        fuel: u32,
        cache: &mut SessionCache,
        out: &mut Vec<DrawCommand>,
    )
        requires
            1 <= fuel <= MAX_RENDER_DEPTH,
            pos_ok(px as int, fuel as int),
            pos_ok(py as int, fuel as int),
        ensures
            ({
                let r = spec_render_key(*self, *pool, px as int, py as int, fuel as nat,
                    old(cache)@);
                render_emitted(old(out)@, final(out)@, r.0) && final(cache)@ == r.1
            }),
        decreases fuel, 0int,
    {
        render_object_refs(&self.object_refs, pool, px, py, fuel - 1, cache, out);
    }
}

impl Button {
    /// Sets the border emphasis, paints the face unless transparent, and
    /// renders the children inside the face rectangle.
    pub fn render(
        &self,
        pool: &ObjectPool,
        px: i32,
        py: i32,
        fuel: u32,
        cache: &mut SessionCache,
        out: &mut Vec<DrawCommand>,
    )
        requires
            1 <= fuel <= MAX_RENDER_DEPTH,
            pos_ok(px as int, fuel as int),
            pos_ok(py as int, fuel as int),
        ensures
            ({
                let r = spec_render_button(*self, *pool, px as int, py as int, fuel as nat,
                    old(cache)@);
                render_emitted(old(out)@, final(out)@, r.0) && final(cache)@ == r.1
            }),
        decreases fuel, 0int,
    {
        let ghost out0 = out@;
        let fx = if self.options.no_border {
            px
        } else {
            px + BUTTON_BORDER_WIDTH as i32
        };
        let fy = if self.options.no_border {
            py
        } else {
            py + BUTTON_BORDER_WIDTH as i32
        };
        let border = DrawCommand::SetBorderWidth {
            width: if self.options.suppress_border {
                0
            } else {
                BUTTON_BORDER_WIDTH as u8
            },
        };
        let ghost borderv = border;
        out.push(border);
        if !self.options.transparent_background {
            let face = DrawCommand::FillRect {
                x: fx,
                y: fy,
                width: self.face_size(self.width),
                height: self.face_size(self.height),
                colour: pool.color_by_index(self.background_colour),
            };
            let ghost facev = face;
            out.push(face);
            let ghost mid = out@;
            render_object_refs(&self.object_refs, pool, fx, fy, fuel - 1, cache, out);
            proof {
                let rest = spec_render_refs(self.object_refs@, *pool, fx as int, fy as int, (fuel
                    - 1) as nat, old(cache)@);
                lemma_emitted_push2(out0, mid, borderv, facev);
                lemma_emitted_trans(out0, mid, out@, seq![borderv@, facev@], rest.0);
            }
        } else {
            let ghost mid = out@;
            render_object_refs(&self.object_refs, pool, fx, fy, fuel - 1, cache, out);
            proof {
                let rest = spec_render_refs(self.object_refs@, *pool, fx as int, fy as int, (fuel
                    - 1) as nat, old(cache)@);
                lemma_emitted_push(out0, mid, borderv);
                lemma_emitted_trans(out0, mid, out@, seq![borderv@], rest.0);
            }
        }
    }

    /// The face size along one axis, after the border inset.
    pub fn face_size(&self, size: u16) -> (s: u16)
        ensures
            s as int == spec_button_face_size(*self, size as int),
    {
        if self.options.no_border {
            size
        } else if size >= 2 * BUTTON_BORDER_WIDTH {
            size - 2 * BUTTON_BORDER_WIDTH
        } else {
            0
        }
    }
}

impl ObjectPointer {
    /// Renders the pointed-to object at the same position; nothing when no
    /// target is set, one diagnostic when the target does not resolve.
    pub fn render(
        &self,
        pool: &ObjectPool,
        px: i32,
        py: i32,
        fuel: u32,
        cache: &mut SessionCache,
        out: &mut Vec<DrawCommand>,
    )
        requires
            1 <= fuel <= MAX_RENDER_DEPTH,
            pos_ok(px as int, fuel as int),
            pos_ok(py as int, fuel as int),
        ensures
            ({
                let r = spec_render_object_pointer(*self, *pool, px as int, py as int, fuel as nat,
                    old(cache)@);
                render_emitted(old(out)@, final(out)@, r.0) && final(cache)@ == r.1
            }),
        decreases fuel, 0int,
    {
        match self.value {
            None => {
                proof {
                    lemma_emitted_refl(out@);
                }
            },
            Some(id) => {
                match pool.object_by_id(id) {
                    Some(target) => {
                        target.render_at(pool, px, py, fuel - 1, cache, out);
                    },
                    None => {
                        let ghost out0 = out@;
                        let d = DrawCommand::Diagnostic { x: px, y: py, missing_id: id };
                        let ghost dv = d;
                        out.push(d);
                        proof {
                            lemma_emitted_push(out0, out@, dv);
                        }
                    },
                }
            },
        }
    }
}

impl OutputString {
    /// Paints the displayed text in the font colour, or one diagnostic when
    /// the font-attributes reference does not resolve to font attributes.
    pub fn render(
        &self,
        pool: &ObjectPool,
        px: i32,
        py: i32,
        cache: &mut SessionCache,
        out: &mut Vec<DrawCommand>,
    )
        ensures
            ({
                let r = spec_render_output_string(*self, *pool, px as int, py as int, old(cache)@);
                render_emitted(old(out)@, final(out)@, r.0) && final(cache)@ == r.1
            }),
    {
        let ghost out0 = out@;
        match pool.object_by_id(self.font_attributes) {
            Some(Object::FontAttributes(fa)) => {
                let text: String = match self.variable_reference {
                    Some(vid) => match pool.object_by_id(vid) {
                        Some(Object::StringVariable(sv)) => sv.value.clone(),
                        _ => self.value.clone(),
                    },
                    None => self.value.clone(),
                };
                let d = DrawCommand::Text {
                    x: px,
                    y: py,
                    colour: pool.color_by_index(fa.font_colour),
                    text,
                };
                let ghost dv = d;
                out.push(d);
                proof {
                    lemma_emitted_push(out0, out@, dv);
                }
            },
            _ => {
                let d = DrawCommand::Diagnostic { x: px, y: py, missing_id: self.font_attributes };
                let ghost dv = d;
                out.push(d);
                proof {
                    lemma_emitted_push(out0, out@, dv);
                }
            },
        }
    }
}

impl OutputRectangle {
    /// Strokes the rectangle border and fills the interior when a fill
    /// reference is set and resolves; diagnostics replace what does not
    /// resolve, as the contract details.
    pub fn render(
        &self,
        pool: &ObjectPool,
        px: i32,
        py: i32,
        cache: &mut SessionCache,
        out: &mut Vec<DrawCommand>,
    )
        requires
            -0x2000_0000 <= px <= 0x2000_0000,
            -0x2000_0000 <= py <= 0x2000_0000,
        ensures
            ({
                let r = spec_render_output_rectangle(*self, *pool, px as int, py as int,
                    old(cache)@);
                render_emitted(old(out)@, final(out)@, r.0) && final(cache)@ == r.1
            }),
    {
        let ghost out0 = out@;
        match pool.object_by_id(self.line_attributes) {
            Some(Object::LineAttributes(la)) => {
                let lw = la.line_width;
                let stroke = DrawCommand::StrokeRect {
                    x: px,
                    y: py,
                    width: self.width,
                    height: self.height,
                    line_width: lw,
                    colour: pool.color_by_index(la.line_colour),
                };
                let ghost strokev = stroke;
                out.push(stroke);
                match self.fill_attributes {
                    None => {
                        proof {
                            lemma_emitted_push(out0, out@, strokev);
                        }
                    },
                    Some(fid) => {
                        match pool.object_by_id(fid) {
                            Some(Object::FillAttributes(fa)) => {
                                let fill = DrawCommand::FillRect {
                                    x: px + lw as i32,
                                    y: py + lw as i32,
                                    width: rect_fill_size(self.width, lw),
                                    height: rect_fill_size(self.height, lw),
                                    colour: pool.color_by_index(fa.fill_colour),
                                };
                                let ghost fillv = fill;
                                out.push(fill);
                                proof {
                                    lemma_emitted_push2(out0, out@, strokev, fillv);
                                }
                            },
                            _ => {
                                let d = DrawCommand::Diagnostic { x: px, y: py, missing_id: fid };
                                let ghost dv = d;
                                out.push(d);
                                proof {
                                    lemma_emitted_push2(out0, out@, strokev, dv);
                                }
                            },
                        }
                    },
                }
            },
            _ => {
                let d = DrawCommand::Diagnostic { x: px, y: py, missing_id: self.line_attributes };
                let ghost dv = d;
                out.push(d);
                proof {
                    lemma_emitted_push(out0, out@, dv);
                }
            },
        }
    }
}

/// The interior size of a stroked rectangle along one axis.
pub fn rect_fill_size(size: u16, line_width: u8) -> (s: u16)
    ensures
        s as int == spec_rect_fill_size(size as int, line_width as int),
{
    if size >= 2 * (line_width as u16) {
        size - 2 * (line_width as u16)
    } else {
        0
    }
}

impl PictureGraphic {
    /// Paints this picture's raster, decoding and caching it when the
    /// session cache holds no entry under this identifier with an unchanged
    /// content hash.
    pub fn render(
        &self,
        pool: &ObjectPool,
        px: i32,
        py: i32,
        cache: &mut SessionCache,
        out: &mut Vec<DrawCommand>,
    )
        ensures
            ({
                let r = spec_render_picture_graphic(*self, *pool, px as int, py as int,
                    old(cache)@);
                render_emitted(old(out)@, final(out)@, r.0) && final(cache)@ == r.1
            }),
    {
        let ghost out0 = out@;
        let h = self.content_hash();
        let mut cached_handle: Option<u64> = None;
        match cache.get(self.id) {
            Some(e) => {
                if e.hash == h {
                    cached_handle = Some(e.handle);
                }
            },
            None => {},
        }
        let dh = self.display_height();
        match cached_handle {
            Some(handle) => {
                let d = DrawCommand::Image { x: px, y: py, width: self.width, height: dh, handle };
                let ghost dv = d;
                out.push(d);
                proof {
                    lemma_emitted_push(out0, out@, dv);
                }
            },
            None => {
                let raster = self.decode(pool);
                let ghost rasterv = raster@;
                let handle = cache.put(self.id, h, raster);
                let d = DrawCommand::Image { x: px, y: py, width: self.width, height: dh, handle };
                let ghost dv = d;
                out.push(d);
                proof {
                    lemma_emitted_push(out0, out@, dv);
                }
            },
        }
    }
}

impl Object {
    /// Renders this object at an accumulated position with explicit
    /// remaining depth: the per-kind dispatch.  Kinds outside the
    /// implemented set are deliberate no-ops.
    pub fn render_at(
        &self,
        pool: &ObjectPool,
        px: i32,
        py: i32,
        fuel: u32,
        cache: &mut SessionCache,
        out: &mut Vec<DrawCommand>,
    )
        requires
            fuel <= MAX_RENDER_DEPTH,
            pos_ok(px as int, fuel as int),
            pos_ok(py as int, fuel as int),
        ensures
            ({
                let r = spec_render(*self, *pool, px as int, py as int, fuel as nat, old(cache)@);
                render_emitted(old(out)@, final(out)@, r.0) && final(cache)@ == r.1
            }),
        decreases fuel, 1int,
    {
        if fuel == 0 {
            proof {
                lemma_emitted_refl(out@);
            }
            return ;
        }
        match self {
            Object::WorkingSet(o) => o.render(pool, px, py, fuel, cache, out),
            Object::DataMask(o) => o.render(pool, px, py, fuel, cache, out),
            Object::AlarmMask(o) => o.render(pool, px, py, fuel, cache, out),
            Object::Container(o) => o.render(pool, px, py, fuel, cache, out),
            Object::Key(o) => o.render(pool, px, py, fuel, cache, out),
            Object::Button(o) => o.render(pool, px, py, fuel, cache, out),
            Object::ObjectPointer(o) => o.render(pool, px, py, fuel, cache, out),
            Object::OutputString(o) => o.render(pool, px, py, cache, out),
            Object::OutputRectangle(o) => o.render(pool, px, py, cache, out),
            Object::PictureGraphic(o) => o.render(pool, px, py, cache, out),
            Object::SoftKeyMask
            | Object::InputBoolean
            | Object::InputString
            | Object::InputNumber
            | Object::InputList
            | Object::OutputNumber
            | Object::OutputList
            | Object::OutputLine
            | Object::OutputEllipse
            | Object::OutputPolygon
            | Object::OutputMeter
            | Object::OutputLinearBarGraph
            | Object::OutputArchedBarGraph
            | Object::NumberVariable
            | Object::StringVariable(_)
            | Object::FontAttributes(_)
            | Object::LineAttributes(_)
            | Object::FillAttributes(_)
            | Object::InputAttributes
            | Object::Macro
            | Object::AuxiliaryFunctionType1
            | Object::AuxiliaryInputType1
            | Object::AuxiliaryFunctionType2
            | Object::AuxiliaryInputType2
            | Object::AuxiliaryControlDesignatorType2
            | Object::WindowMask
            | Object::KeyGroup
            | Object::GraphicsContext
            | Object::ExtendedInputAttributes
            | Object::ColourMap
            | Object::ObjectLabelReferenceList
            | Object::ExternalObjectDefinition
            | Object::ExternalReferenceName
            | Object::ExternalObjectPointer
            | Object::Animation
            | Object::ColourPalette
            | Object::GraphicData
            | Object::WorkingSetSpecialControls
            | Object::ScaledGraphic => {
                proof {
                    lemma_emitted_refl(out@);
                }
            },
        }
    }
}

/// The renderer's host-facing entry: anything renderable from a pool.
pub trait RenderableObject {
    /// The scene-graph node this value renders as.
    spec fn as_object(&self) -> Object;

    /// Renders this object once, at `position` relative to the drawing
    /// surface origin, emitting paint commands into `out` and keeping the
    /// session cache current.
    fn render(
        &self,
        pool: &ObjectPool,
        position: Point,
        cache: &mut SessionCache,
        out: &mut Vec<DrawCommand>,
    )
        ensures
            ({
                let r = spec_render(self.as_object(), *pool, position.x as int, position.y as int,
                    MAX_RENDER_DEPTH as nat, old(cache)@);
                render_emitted(old(out)@, final(out)@, r.0) && final(cache)@ == r.1
            }),
    ;
}

impl RenderableObject for Object {
    open spec fn as_object(&self) -> Object {
        *self
    }

    fn render(
        &self,
        pool: &ObjectPool,
        position: Point,
        cache: &mut SessionCache,
        out: &mut Vec<DrawCommand>,
    ) {
        self.render_at(pool, position.x as i32, position.y as i32, MAX_RENDER_DEPTH, cache, out);
    }
}

} // verus!
