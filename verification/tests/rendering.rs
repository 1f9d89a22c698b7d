use vt_render::cache::SessionCache;
use vt_render::commands::DrawCommand;
use vt_render::pool::Button;
use vt_render::pool::ButtonOptions;
use vt_render::pool::Colour;
use vt_render::pool::Container;
use vt_render::pool::FillAttributes;
use vt_render::pool::FontAttributes;
use vt_render::pool::LineAttributes;
use vt_render::pool::Object;
use vt_render::pool::ObjectPointer;
use vt_render::pool::ObjectPool;
use vt_render::pool::ObjectRef;
use vt_render::pool::OutputRectangle;
use vt_render::pool::OutputString;
use vt_render::pool::PictureGraphic;
use vt_render::pool::PictureGraphicFormat;
use vt_render::pool::PictureGraphicOptions;
use vt_render::pool::Point;
use vt_render::pool::StringVariable;
use vt_render::pool::WorkingSet;
use vt_render::render::RenderableObject;

fn grey_palette() -> Vec<Colour> {
    let mut p = Vec::new();
    for i in 0..256usize {
        p.push(Colour { r: i as u8, g: i as u8, b: i as u8 });
    }
    p
}

fn empty_pool() -> ObjectPool {
    ObjectPool { objects: Vec::new(), palette: grey_palette() }
}

fn render_to_vec(obj: &Object, pool: &ObjectPool, at: Point) -> Vec<DrawCommand> {
    let mut cache = SessionCache::new();
    let mut out = Vec::new();
    obj.render(pool, at, &mut cache, &mut out);
    out
}

fn object_ref(id: u16, x: i16, y: i16) -> ObjectRef {
    ObjectRef { id, offset: Point { x, y } }
}

fn line_attributes_object() -> Object {
    Object::LineAttributes(LineAttributes { line_colour: 9, line_width: 2 })
}

fn simple_rect(line_attributes: u16) -> Object {
    Object::OutputRectangle(OutputRectangle {
        width: 30,
        height: 20,
        line_attributes,
        fill_attributes: None,
    })
}

#[test]
fn offsets_accumulate_over_nested_containers() {
    let mut pool = empty_pool();
    pool.objects.push((
        5,
        Object::Container(Container {
            width: 50,
            height: 50,
            hidden: false,
            object_refs: vec![object_ref(7, 3, 4)],
        }),
    ));
    pool.objects.push((7, simple_rect(9)));
    pool.objects.push((9, line_attributes_object()));
    let root = Object::Container(Container {
        width: 100,
        height: 100,
        hidden: false,
        object_refs: vec![object_ref(5, 10, 20)],
    });
    let out = render_to_vec(&root, &pool, Point { x: 1, y: 2 });
    assert_eq!(out.len(), 1);
    match &out[0] {
        DrawCommand::StrokeRect { x, y, width, height, line_width, colour } => {
            assert_eq!((*x, *y), (1 + 10 + 3, 2 + 20 + 4));
            assert_eq!((*width, *height), (30, 20));
            assert_eq!(*line_width, 2);
            assert_eq!(*colour, Colour { r: 9, g: 9, b: 9 });
        }
        other => panic!("expected a stroke, got {:?}", other),
    }
}

#[test]
fn unselectable_working_set_paints_nothing() {
    let mut pool = empty_pool();
    pool.objects.push((9, line_attributes_object()));
    pool.objects.push((7, simple_rect(9)));
    let root = Object::WorkingSet(WorkingSet {
        background_colour: 1,
        selectable: false,
        object_refs: vec![object_ref(7, 0, 0)],
    });
    let out = render_to_vec(&root, &pool, Point { x: 0, y: 0 });
    assert!(out.is_empty());
}

#[test]
fn selectable_working_set_paints_background_then_children() {
    let mut pool = empty_pool();
    pool.objects.push((9, line_attributes_object()));
    pool.objects.push((7, simple_rect(9)));
    let root = Object::WorkingSet(WorkingSet {
        background_colour: 3,
        selectable: true,
        object_refs: vec![object_ref(7, 0, 0)],
    });
    let out = render_to_vec(&root, &pool, Point { x: 0, y: 0 });
    assert_eq!(out.len(), 2);
    assert_eq!(
        out[0],
        DrawCommand::FrameFill { x: 0, y: 0, colour: Colour { r: 3, g: 3, b: 3 } }
    );
    assert!(matches!(out[1], DrawCommand::StrokeRect { .. }));
}

#[test]
fn hidden_container_hides_all_descendants() {
    let mut pool = empty_pool();
    pool.objects.push((9, line_attributes_object()));
    pool.objects.push((7, simple_rect(9)));
    let root = Object::Container(Container {
        width: 10,
        height: 10,
        hidden: true,
        object_refs: vec![object_ref(7, 0, 0)],
    });
    let out = render_to_vec(&root, &pool, Point { x: 0, y: 0 });
    assert!(out.is_empty());
}

#[test]
fn missing_line_attributes_gives_one_diagnostic_and_spares_siblings() {
    let mut pool = empty_pool();
    pool.objects.push((9, line_attributes_object()));
    pool.objects.push((7, simple_rect(1234)));  // 1234 does not resolve
    pool.objects.push((8, simple_rect(9)));
    let root = Object::Container(Container {
        width: 100,
        height: 100,
        hidden: false,
        object_refs: vec![object_ref(7, 0, 0), object_ref(8, 0, 0)],
    });
    let out = render_to_vec(&root, &pool, Point { x: 0, y: 0 });
    assert_eq!(out.len(), 2);
    assert_eq!(out[0], DrawCommand::Diagnostic { x: 0, y: 0, missing_id: 1234 });
    assert!(matches!(out[1], DrawCommand::StrokeRect { .. }));
}

#[test]
fn missing_child_reference_gives_diagnostic_at_parent_origin() {
    let pool = empty_pool();
    let root = Object::Container(Container {
        width: 100,
        height: 100,
        hidden: false,
        object_refs: vec![object_ref(77, 5, 5)],
    });
    let out = render_to_vec(&root, &pool, Point { x: 2, y: 3 });
    assert_eq!(out, vec![DrawCommand::Diagnostic { x: 2, y: 3, missing_id: 77 }]);
}

#[test]
fn object_pointer_with_no_target_renders_nothing() {
    let pool = empty_pool();
    let root = Object::ObjectPointer(ObjectPointer { value: None });
    assert!(render_to_vec(&root, &pool, Point { x: 0, y: 0 }).is_empty());
}

#[test]
fn object_pointer_follows_target_without_offset() {
    let mut pool = empty_pool();
    pool.objects.push((9, line_attributes_object()));
    pool.objects.push((7, simple_rect(9)));
    let root = Object::ObjectPointer(ObjectPointer { value: Some(7) });
    let out = render_to_vec(&root, &pool, Point { x: 4, y: 6 });
    assert_eq!(out.len(), 1);
    assert!(matches!(out[0], DrawCommand::StrokeRect { x: 4, y: 6, .. }));
}

#[test]
fn object_pointer_to_missing_target_gives_diagnostic() {
    let pool = empty_pool();
    let root = Object::ObjectPointer(ObjectPointer { value: Some(55) });
    let out = render_to_vec(&root, &pool, Point { x: 0, y: 0 });
    assert_eq!(out, vec![DrawCommand::Diagnostic { x: 0, y: 0, missing_id: 55 }]);
}

#[test]
fn output_string_paints_literal_in_font_colour() {
    let mut pool = empty_pool();
    pool.objects.push((2, Object::FontAttributes(FontAttributes { font_colour: 42 })));
    let root = Object::OutputString(OutputString {
        width: 60,
        height: 12,
        font_attributes: 2,
        variable_reference: None,
        value: String::from("hello"),
    });
    let out = render_to_vec(&root, &pool, Point { x: 1, y: 1 });
    assert_eq!(
        out,
        vec![DrawCommand::Text {
            x: 1,
            y: 1,
            colour: Colour { r: 42, g: 42, b: 42 },
            text: String::from("hello"),
        }]
    );
}

#[test]
fn output_string_substitutes_string_variable() {
    let mut pool = empty_pool();
    pool.objects.push((2, Object::FontAttributes(FontAttributes { font_colour: 1 })));
    pool.objects.push((3, Object::StringVariable(StringVariable { value: String::from("live") })));
    let root = Object::OutputString(OutputString {
        width: 60,
        height: 12,
        font_attributes: 2,
        variable_reference: Some(3),
        value: String::from("fallback"),
    });
    let out = render_to_vec(&root, &pool, Point { x: 0, y: 0 });
    match &out[0] {
        DrawCommand::Text { text, .. } => assert_eq!(text, "live"),
        other => panic!("expected text, got {:?}", other),
    }
}

#[test]
fn output_string_falls_back_to_literal_when_variable_missing() {
    let mut pool = empty_pool();
    pool.objects.push((2, Object::FontAttributes(FontAttributes { font_colour: 1 })));
    let root = Object::OutputString(OutputString {
        width: 60,
        height: 12,
        font_attributes: 2,
        variable_reference: Some(3),
        value: String::from("fallback"),
    });
    let out = render_to_vec(&root, &pool, Point { x: 0, y: 0 });
    match &out[0] {
        DrawCommand::Text { text, .. } => assert_eq!(text, "fallback"),
        other => panic!("expected text, got {:?}", other),
    }
}

#[test]
fn output_string_without_font_attributes_gives_diagnostic() {
    let pool = empty_pool();
    let root = Object::OutputString(OutputString {
        width: 60,
        height: 12,
        font_attributes: 2,
        variable_reference: None,
        value: String::from("hello"),
    });
    let out = render_to_vec(&root, &pool, Point { x: 0, y: 0 });
    assert_eq!(out, vec![DrawCommand::Diagnostic { x: 0, y: 0, missing_id: 2 }]);
}

#[test]
fn output_rectangle_fills_interior_inset_by_stroke() {
    let mut pool = empty_pool();
    pool.objects.push((9, line_attributes_object()));
    pool.objects.push((4, Object::FillAttributes(FillAttributes { fill_colour: 20 })));
    let root = Object::OutputRectangle(OutputRectangle {
        width: 30,
        height: 20,
        line_attributes: 9,
        fill_attributes: Some(4),
    });
    let out = render_to_vec(&root, &pool, Point { x: 10, y: 10 });
    assert_eq!(out.len(), 2);
    assert!(matches!(out[0], DrawCommand::StrokeRect { .. }));
    assert_eq!(
        out[1],
        DrawCommand::FillRect {
            x: 12,
            y: 12,
            width: 26,
            height: 16,
            colour: Colour { r: 20, g: 20, b: 20 },
        }
    );
}

#[test]
fn output_rectangle_missing_fill_attributes_strokes_then_diagnoses() {
    let mut pool = empty_pool();
    pool.objects.push((9, line_attributes_object()));
    let root = Object::OutputRectangle(OutputRectangle {
        width: 30,
        height: 20,
        line_attributes: 9,
        fill_attributes: Some(4),
    });
    let out = render_to_vec(&root, &pool, Point { x: 0, y: 0 });
    assert_eq!(out.len(), 2);
    assert!(matches!(out[0], DrawCommand::StrokeRect { .. }));
    assert_eq!(out[1], DrawCommand::Diagnostic { x: 0, y: 0, missing_id: 4 });
}

#[test]
fn button_insets_face_and_sets_border_emphasis() {
    let pool = empty_pool();
    let root = Object::Button(Button {
        width: 40,
        height: 30,
        background_colour: 6,
        options: ButtonOptions {
            no_border: false,
            transparent_background: false,
            suppress_border: false,
        },
        object_refs: Vec::new(),
    });
    let out = render_to_vec(&root, &pool, Point { x: 0, y: 0 });
    assert_eq!(
        out,
        vec![
            DrawCommand::SetBorderWidth { width: 4 },
            DrawCommand::FillRect {
                x: 4,
                y: 4,
                width: 32,
                height: 22,
                colour: Colour { r: 6, g: 6, b: 6 },
            },
        ]
    );
}

#[test]
fn suppressed_transparent_button_only_zeroes_border() {
    let pool = empty_pool();
    let root = Object::Button(Button {
        width: 40,
        height: 30,
        background_colour: 6,
        options: ButtonOptions {
            no_border: true,
            transparent_background: true,
            suppress_border: true,
        },
        object_refs: Vec::new(),
    });
    let out = render_to_vec(&root, &pool, Point { x: 0, y: 0 });
    assert_eq!(out, vec![DrawCommand::SetBorderWidth { width: 0 }]);
}

fn sample_picture() -> PictureGraphic {
    PictureGraphic {
        id: 12,
        width: 3,
        actual_width: 3,
        actual_height: 1,
        format: PictureGraphicFormat::Monochrome,
        options: PictureGraphicOptions { transparent: false },
        transparency_colour: 0,
        data: vec![0xa0],
    }
}

#[test]
fn picture_cache_reuses_handle_until_content_changes() {
    let pool = empty_pool();
    let mut cache = SessionCache::new();
    let obj = Object::PictureGraphic(sample_picture());

    let mut first = Vec::new();
    obj.render(&pool, Point { x: 0, y: 0 }, &mut cache, &mut first);
    let mut second = Vec::new();
    obj.render(&pool, Point { x: 0, y: 0 }, &mut cache, &mut second);
    let h1 = match first[0] {
        DrawCommand::Image { handle, .. } => handle,
        _ => panic!("expected an image"),
    };
    let h2 = match second[0] {
        DrawCommand::Image { handle, .. } => handle,
        _ => panic!("expected an image"),
    };
    assert_eq!(h1, h2, "unchanged picture must reuse the uploaded raster");

    let mut changed_picture = sample_picture();
    changed_picture.data = vec![0xff];
    let changed = Object::PictureGraphic(changed_picture);
    let mut third = Vec::new();
    changed.render(&pool, Point { x: 0, y: 0 }, &mut cache, &mut third);
    let h3 = match third[0] {
        DrawCommand::Image { handle, .. } => handle,
        _ => panic!("expected an image"),
    };
    assert_ne!(h1, h3, "a changed picture must be decoded and uploaded anew");
}

#[test]
fn repeated_render_of_unchanged_scene_is_identical() {
    let mut pool = empty_pool();
    pool.objects.push((9, line_attributes_object()));
    pool.objects.push((7, simple_rect(9)));
    pool.objects.push((12, Object::PictureGraphic(sample_picture())));
    let root = Object::WorkingSet(WorkingSet {
        background_colour: 0,
        selectable: true,
        object_refs: vec![object_ref(7, 1, 1), object_ref(12, 5, 5)],
    });
    let mut cache = SessionCache::new();
    let mut first = Vec::new();
    root.render(&pool, Point { x: 0, y: 0 }, &mut cache, &mut first);
    let mut second = Vec::new();
    root.render(&pool, Point { x: 0, y: 0 }, &mut cache, &mut second);
    assert_eq!(first, second, "an unmodified pool and cache must repaint identically");
}

#[test]
fn unimplemented_kinds_render_as_no_ops() {
    let pool = empty_pool();
    for obj in [Object::SoftKeyMask, Object::OutputMeter, Object::Macro, Object::WindowMask] {
        assert!(render_to_vec(&obj, &pool, Point { x: 0, y: 0 }).is_empty());
    }
}

#[test]
fn raster_is_retrievable_by_handle_for_upload() {
    let pool = empty_pool();
    let mut cache = SessionCache::new();
    let obj = Object::PictureGraphic(sample_picture());
    let mut out = Vec::new();
    obj.render(&pool, Point { x: 0, y: 0 }, &mut cache, &mut out);
    let handle = match out[0] {
        DrawCommand::Image { handle, .. } => handle,
        _ => panic!("expected an image"),
    };
    let raster = cache.raster_by_handle(handle).expect("raster must be stored");
    assert_eq!(raster.width, 3);
    assert_eq!(raster.height, 1);
    assert_eq!(raster.pixels.len(), 3);
    assert!(cache.raster_by_handle(handle + 1).is_none());
}
