//! The object pool: a closed set of graphical object kinds, addressed by
//! integer identifiers, plus an indexed colour palette.
//!
//! Objects reference each other by identifier only; a reference may dangle
//! and the renderer degrades gracefully when it does.  The pool is immutable
//! for the duration of one render pass.

use vstd::prelude::*;

verus! {

/// An RGB colour resolved from the pool's palette.
#[derive(Clone, Copy, Debug, PartialEq, Eq, Structural)]
pub struct Colour {
    pub r: u8,
    pub g: u8,
    pub b: u8,
}

impl Colour {
    /// The colour a clamped out-of-range palette index resolves to.
    pub fn black() -> (c: Colour)
        ensures
            c == (Colour { r: 0, g: 0, b: 0 }),
    {
        Colour { r: 0, g: 0, b: 0 }
    }
}

/// A signed 2D pixel offset, relative to the parent object's origin.
#[derive(Clone, Copy, Debug, PartialEq, Eq, Structural)]
pub struct Point {
    pub x: i16,
    pub y: i16,
}

/// One edge of the scene graph: a child object identifier together with the
/// child's offset from the parent's origin.  A parent's reference list is
/// ordered; later entries paint over earlier ones.
#[derive(Clone, Copy, Debug, PartialEq, Eq, Structural)]
pub struct ObjectRef {
    pub id: u16,
    pub offset: Point,
}

/// Top-level visibility root of a renderable screen.
#[derive(Clone, Debug, PartialEq)]
pub struct WorkingSet {
    pub background_colour: u8,
    pub selectable: bool,
    pub object_refs: Vec<ObjectRef>,
}

/// A full-screen mask painted over its background colour.
#[derive(Clone, Debug, PartialEq)]
pub struct DataMask {
    pub background_colour: u8,
    pub object_refs: Vec<ObjectRef>,
}

/// A mask shown for alarm conditions; renders like a data mask.
#[derive(Clone, Debug, PartialEq)]
pub struct AlarmMask {
    pub background_colour: u8,
    pub object_refs: Vec<ObjectRef>,
}

/// A nested group of children clipped to a sub-region; may be hidden.
#[derive(Clone, Debug, PartialEq)]
pub struct Container {
    pub width: u16,
    pub height: u16,
    pub hidden: bool,
    pub object_refs: Vec<ObjectRef>,
}

/// A soft-key cell; its size is host-defined, children render inside it.
#[derive(Clone, Debug, PartialEq)]
pub struct Key {
    pub object_refs: Vec<ObjectRef>,
}

/// Option flags of a button object.
#[derive(Clone, Copy, Debug, PartialEq, Eq, Structural)]
pub struct ButtonOptions {
    pub no_border: bool,
    pub transparent_background: bool,
    pub suppress_border: bool,
}

/// A push button with an inset face for its children.
#[derive(Clone, Debug, PartialEq)]
pub struct Button {
    pub width: u16,
    pub height: u16,
    pub background_colour: u8,
    pub options: ButtonOptions,
    pub object_refs: Vec<ObjectRef>,
}

/// Pure indirection: renders its target object, if any, at the same position.
#[derive(Clone, Copy, Debug, PartialEq, Eq, Structural)]
pub struct ObjectPointer {
    pub value: Option<u16>,
}

/// A text field; the displayed text may come from a string variable.
#[derive(Clone, Debug, PartialEq)]
pub struct OutputString {
    pub width: u16,
    pub height: u16,
    pub font_attributes: u16,
    pub variable_reference: Option<u16>,
    pub value: String,
}

/// A stroked, optionally filled rectangle.
#[derive(Clone, Copy, Debug, PartialEq, Eq, Structural)]
pub struct OutputRectangle {
    pub width: u16,
    pub height: u16,
    pub line_attributes: u16,
    pub fill_attributes: Option<u16>,
}

/// The packing scheme of a picture graphic's byte stream.
#[derive(Clone, Copy, Debug, PartialEq, Eq, Structural)]
pub enum PictureGraphicFormat {
    /// Eight one-bit palette indices per byte, most significant bit first.
    Monochrome,
    /// Two four-bit palette indices per byte, high nibble first.
    FourBit,
    /// One palette index per byte.
    EightBit,
}

/// Option flags of a picture graphic object.
#[derive(Clone, Copy, Debug, PartialEq, Eq, Structural)]
pub struct PictureGraphicOptions {
    pub transparent: bool,
}

/// A packed-pixel image with palette indirection and optional transparency.
#[derive(Clone, Debug, PartialEq)]
pub struct PictureGraphic {
    pub id: u16,
    pub width: u16,
    pub actual_width: u16,
    pub actual_height: u16,
    pub format: PictureGraphicFormat,
    pub options: PictureGraphicOptions,
    pub transparency_colour: u8,
    pub data: Vec<u8>,
}

/// Font colour (and, in the full format, face and size) for output strings.
#[derive(Clone, Copy, Debug, PartialEq, Eq, Structural)]
pub struct FontAttributes {
    pub font_colour: u8,
}

/// Stroke colour and width for shapes.
#[derive(Clone, Copy, Debug, PartialEq, Eq, Structural)]
pub struct LineAttributes {
    pub line_colour: u8,
    pub line_width: u8,
}

/// Fill colour for shapes.
#[derive(Clone, Copy, Debug, PartialEq, Eq, Structural)]
pub struct FillAttributes {
    pub fill_colour: u8,
}

/// A string value other objects may display through a variable reference.
#[derive(Clone, Debug, PartialEq)]
pub struct StringVariable {
    pub value: String,
}

/// One node of the scene graph: a closed tagged union over all object kinds
/// of the virtual-terminal object vocabulary.  Kinds the renderer does not
/// paint are deliberate no-ops and carry no fields here.
#[derive(Clone, Debug, PartialEq)]
pub enum Object {
    WorkingSet(WorkingSet),
    DataMask(DataMask),
    AlarmMask(AlarmMask),
    Container(Container),
    SoftKeyMask,
    Key(Key),
    Button(Button),
    InputBoolean,
    InputString,
    InputNumber,
    InputList,
    OutputString(OutputString),
    OutputNumber,
    OutputList,
    OutputLine,
    OutputRectangle(OutputRectangle),
    OutputEllipse,
    OutputPolygon,
    OutputMeter,
    OutputLinearBarGraph,
    OutputArchedBarGraph,
    PictureGraphic(PictureGraphic),
    NumberVariable,
    StringVariable(StringVariable),
    FontAttributes(FontAttributes),
    LineAttributes(LineAttributes),
    FillAttributes(FillAttributes),
    InputAttributes,
    ObjectPointer(ObjectPointer),
    Macro,
    AuxiliaryFunctionType1,
    AuxiliaryInputType1,
    AuxiliaryFunctionType2,
    AuxiliaryInputType2,
    AuxiliaryControlDesignatorType2,
    WindowMask,
    KeyGroup,
    GraphicsContext,
    ExtendedInputAttributes,
    ColourMap,
    ObjectLabelReferenceList,
    ExternalObjectDefinition,
    ExternalReferenceName,
    ExternalObjectPointer,
    Animation,
    ColourPalette,
    GraphicData,
    WorkingSetSpecialControls,
    ScaledGraphic,
}

/// The scene graph: identifier-keyed objects plus the colour palette.
#[derive(Clone, Debug, PartialEq)]
pub struct ObjectPool {
    /// The objects, each paired with its identifier.  Lookup returns the
    /// first entry carrying the requested identifier.
    pub objects: Vec<(u16, Object)>,
    /// The indexed colour table; a well-formed pool carries 256 entries.
    pub palette: Vec<Colour>,
}

/// First object paired with `id` in `objects`, if any.
pub open spec fn spec_object_by_id(objects: Seq<(u16, Object)>, id: u16) -> Option<Object>
    decreases objects.len(),
{
    if objects.len() == 0 {
        None
    } else if objects[0].0 == id {
        Some(objects[0].1)
    } else {
        spec_object_by_id(objects.drop_first(), id)
    }
}

/// The colour a palette index resolves to: the palette entry when the index
/// is in range, black otherwise.  Resolution always succeeds; out-of-range
/// indices are clamped, never an error.
pub open spec fn spec_color_by_index(pool: ObjectPool, index: u8) -> Colour {
    if (index as int) < pool.palette@.len() {
        pool.palette@[index as int]
    } else {
        Colour { r: 0, g: 0, b: 0 }
    }
}

/// Lookup finds the first entry paired with its identifier.
proof fn lemma_object_by_id_at(s: Seq<(u16, Object)>, id: u16, i: int)
    requires
        0 <= i < s.len(),
        s[i].0 == id,
        forall|j: int| 0 <= j < i ==> s[j].0 != id,
    ensures
        spec_object_by_id(s, id) == Some(s[i].1),
    decreases i,
{
    if i > 0 {
        lemma_object_by_id_at(s.drop_first(), id, i - 1);
    }
}

/// Lookup misses when no entry carries the identifier.
proof fn lemma_object_by_id_none(s: Seq<(u16, Object)>, id: u16)
    requires
        forall|j: int| 0 <= j < s.len() ==> s[j].0 != id,
    ensures
        spec_object_by_id(s, id) is None,
    decreases s.len(),
{
    if s.len() > 0 {
        lemma_object_by_id_none(s.drop_first(), id);
    }
}

impl ObjectPool {
    /// An empty pool with no objects and an empty palette.
    pub fn new() -> (p: ObjectPool)
        ensures
            p.objects@.len() == 0,
            p.palette@.len() == 0,
    {
        ObjectPool { objects: Vec::new(), palette: Vec::new() }
    }

    /// Looks an object up by identifier; `None` when the identifier does not
    /// resolve in this pool.
    pub fn object_by_id(&self, id: u16) -> (r: Option<&Object>)
        ensures
            match r {
                Some(o) => spec_object_by_id(self.objects@, id) == Some(*o),
                None => spec_object_by_id(self.objects@, id) is None,
            },
    {
        let n = self.objects.len();
        let mut i: usize = 0;
        while i < n
            invariant
                i <= n,
                n == self.objects@.len(),
                forall|j: int| 0 <= j < i ==> self.objects@[j].0 != id,
            decreases n - i,
        {
            if self.objects[i].0 == id {
                proof {
                    lemma_object_by_id_at(self.objects@, id, i as int);
                }
                return Some(&self.objects[i].1);
            }
            i = i + 1;
        }
        proof {
            lemma_object_by_id_none(self.objects@, id);
        }
        None
    }

    /// Resolves a palette index to a colour; always succeeds.
    pub fn color_by_index(&self, index: u8) -> (c: Colour)
        ensures
            c == spec_color_by_index(*self, index),
    {
        if (index as usize) < self.palette.len() {
            self.palette[index as usize]
        } else {
            Colour::black()
        }
    }
}

} // verus!
