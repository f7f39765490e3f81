//! Rectangles in pixel space and their triangles in device coordinates.

use vstd::prelude::*;
use crate::color::Rgb;
use crate::metrics::SizeInfo;

verus! {

/// How a rectangle is filled along its width.
#[derive(Clone, Copy, Debug, PartialEq, Eq, Structural)]
pub enum RectStyle {
    /// Filled throughout.
    Solid,
    /// Filled and empty in turn; `period` is the length in subpixels of
    /// one dash together with one gap.
    Dashed { period: i64 },
}

/// A rectangle in pixel space, in subpixels. `x` and `y` give its top left
/// corner, counted from the top left corner of the window.
#[derive(Clone, Copy, Debug, PartialEq, Eq, Structural)]
pub struct RenderRect {
    pub x: i64,
    pub y: i64,
    pub width: i64,
    pub height: i64,
    pub color: Rgb,
    /// Opacity in 255ths: 255 is opaque.
    pub alpha: u8,
    pub style: RectStyle,
}

impl RenderRect {
    /// A solid rectangle.
    pub fn new(x: i64, y: i64, width: i64, height: i64, color: Rgb, alpha: u8) -> (rect:
        RenderRect)
        ensures
            rect == (RenderRect { x, y, width, height, color, alpha, style: RectStyle::Solid }),
    {
        RenderRect { x, y, width, height, color, alpha, style: RectStyle::Solid }
    }
}

/// A coordinate or length in normalized device space, as the exact
/// fraction `num / den`. The visible part of the window spans the
/// coordinates from -1 to +1, the vertical axis pointing up.
#[derive(Clone, Copy, Debug, PartialEq, Eq, Structural)]
pub struct Ndc {
    pub num: i128,
    pub den: i64,
}

/// One corner of a triangle.
#[derive(Clone, Copy, Debug, PartialEq, Eq, Structural)]
pub struct Vertex {
    pub x: Ndc,
    pub y: Ndc,
    pub r: u8,
    pub g: u8,
    pub b: u8,
    pub a: u8,
    /// Dash period of the rectangle that this corner belongs to.
    pub period: Ndc,
}

/// A call for the graphics device.
#[derive(Clone, Copy, Debug, PartialEq, Eq, Structural)]
pub enum GpuCommand {
    /// Replace the content of the vertex buffer by the first `vertices`
    /// vertices of the renderer.
    BufferData { vertices: usize },
    /// Draw `count` vertices of the buffer, from vertex `first` on, as a
    /// list of triangles.
    DrawTriangles { first: usize, count: usize },
}

/// Dash period in device space that marks a rectangle as solid. No
/// distance in the window is longer than 2, so no point of the rectangle
/// falls into a gap.
pub open spec fn solid_period() -> Ndc {
    Ndc { num: 4, den: 1 }
}

/// Horizontal device coordinate of the point `x` subpixels to the right
/// of the window's left edge: `x / (width / 2) - 1`.
pub open spec fn ndc_x(x: int, size: SizeInfo) -> Ndc {
    Ndc { num: (2 * x - size.width) as i128, den: size.width as i64 }
}

/// Vertical device coordinate of the point `y` subpixels below the
/// window's top edge: `1 - y / (height / 2)`.
pub open spec fn ndc_y(y: int, size: SizeInfo) -> Ndc {
    Ndc { num: (size.height - 2 * y) as i128, den: size.height as i64 }
}

/// Dash period of `style` in device space: a length of `period`
/// subpixels is `period / (width / 2)`.
pub open spec fn ndc_period(style: RectStyle, size: SizeInfo) -> Ndc {
    match style {
        RectStyle::Solid => solid_period(),
        RectStyle::Dashed { period } => Ndc { num: (2 * period) as i128, den: size.width as i64 },
    }
}

/// The vertex of `rect` at the device coordinates `x` and `y`.
pub open spec fn corner(rect: RenderRect, x: Ndc, y: Ndc, size: SizeInfo) -> Vertex {
    Vertex {
        x,
        y,
        r: rect.color.r,
        g: rect.color.g,
        b: rect.color.b,
        a: rect.alpha,
        period: ndc_period(rect.style, size),
    }
}

/// The two triangles that cover `rect`: top right, top left and bottom
/// left, then bottom right, top right and bottom left.
pub open spec fn quad(rect: RenderRect, size: SizeInfo) -> Seq<Vertex> {
    let left = ndc_x(rect.x as int, size);
    let right = ndc_x(rect.x + rect.width, size);
    let top = ndc_y(rect.y as int, size);
    let bottom = ndc_y(rect.y + rect.height, size);
    seq![
        corner(rect, right, top, size),
        corner(rect, left, top, size),
        corner(rect, left, bottom, size),
        corner(rect, right, bottom, size),
        corner(rect, right, top, size),
        corner(rect, left, bottom, size),
    ]
}

/// The triangles of a rectangle span its width and its height: in device
/// space its width is `width / (window width / 2)`, its height `height /
/// (window height / 2)`.
pub proof fn lemma_quad_spans_rect(rect: RenderRect, size: SizeInfo)
    ensures
        quad(rect, size)[0].x.den == size.width,
        quad(rect, size)[1].x.den == size.width,
        quad(rect, size)[0].x.num - quad(rect, size)[1].x.num == 2 * rect.width,
        quad(rect, size)[1].y.den == size.height,
        quad(rect, size)[2].y.den == size.height,
        quad(rect, size)[1].y.num - quad(rect, size)[2].y.num == 2 * rect.height,
{
}

/// Both triangles of a rectangle end at its bottom left corner, so a
/// device that takes the values of a whole triangle from its last vertex
/// finds there the left edge of the rectangle and its dash period.
pub proof fn lemma_triangles_end_at_bottom_left(rect: RenderRect, size: SizeInfo)
    ensures
        quad(rect, size).len() == 6,
        quad(rect, size)[2] == corner(
            rect,
            ndc_x(rect.x as int, size),
            ndc_y(rect.y + rect.height, size),
            size,
        ),
        quad(rect, size)[5] == quad(rect, size)[2],
        forall|i: int| 0 <= i < 6 ==> (#[trigger] quad(rect, size)[i]).period == ndc_period(
            rect.style,
            size,
        ),
{
}

/// The window spans the device coordinates from -1 to +1: its left and
/// bottom edges lie at -1, its right and top edges at +1, and every point
/// inside it lies between them.
pub proof fn lemma_window_spans_device_space(x: int, y: int, size: SizeInfo)
    requires
        0 <= x <= size.width,
        0 <= y <= size.height,
    ensures
        ndc_x(x, size).den == size.width,
        ndc_y(y, size).den == size.height,
        ndc_x(0, size).num == -size.width,
        ndc_x(size.width as int, size).num == size.width,
        ndc_y(0, size).num == size.height,
        ndc_y(size.height as int, size).num == -size.height,
        -size.width <= ndc_x(x, size).num <= size.width,
        -size.height <= ndc_y(y, size).num <= size.height,
{
}

/// The period that marks a rectangle as solid is at least twice as long
/// as the distance of any two points of the window, so the first half of
/// the period holds every point of a rectangle inside the window.
pub proof fn lemma_solid_period_exceeds_window(left: int, right: int, size: SizeInfo)
    requires
        0 <= left <= right <= size.width,
    ensures
        2 * (ndc_x(right, size).num - ndc_x(left, size).num) * solid_period().den
            <= solid_period().num * size.width,
{
}

/// The triangles of `rects`, rectangle by rectangle.
pub open spec fn batch(rects: Seq<RenderRect>, size: SizeInfo) -> Seq<Vertex>
    decreases rects.len(),
{
    if rects.len() == 0 {
        Seq::empty()
    } else {
        batch(rects.drop_last(), size) + quad(rects.last(), size)
    }
}

/// A batch holds six vertices for each rectangle, in the order of the
/// rectangles.
pub proof fn lemma_batch_six_per_rect(rects: Seq<RenderRect>, size: SizeInfo)
    ensures
        batch(rects, size).len() == 6 * rects.len(),
        forall|i: int, j: int|
            0 <= i < rects.len() && 0 <= j < 6 ==> batch(rects, size)[6 * i + j]
                == #[trigger] quad(rects[i], size)[j],
    decreases rects.len(),
{
    if rects.len() > 0 {
        let front = rects.drop_last();
        lemma_batch_six_per_rect(front, size);
        assert forall|i: int, j: int| 0 <= i < rects.len() && 0 <= j < 6 implies batch(
            rects,
            size,
        )[6 * i + j] == #[trigger] quad(rects[i], size)[j] by {
            if i < front.len() {
                assert(front[i] == rects[i]);
            }
        }
    }
}

/// Type of the components of a vertex attribute in the vertex buffer.
#[derive(Clone, Copy, Debug, PartialEq, Eq, Structural)]
pub enum ComponentType {
    /// A floating-point number of 32 bits.
    Float,
    /// An unsigned integer of 8 bits.
    UnsignedByte,
}

/// Where one attribute of a vertex lies in the vertex buffer.
#[derive(Clone, Copy, Debug, PartialEq, Eq, Structural)]
pub struct VertexAttribute {
    /// Slot of the attribute in the vertex shader.
    pub index: u32,
    /// Number of components.
    pub components: u8,
    /// Type of each component.
    pub component_type: ComponentType,
    /// Whether an integer component stands for a fraction of its largest
    /// value.
    pub normalized: bool,
    /// Distance in bytes from the start of the vertex.
    pub offset: usize,
}

impl VertexAttribute {
    /// Number of bytes of the attribute: four for each number, one for
    /// each byte.
    pub open spec fn size(self) -> int {
        match self.component_type {
            ComponentType::Float => 4 * self.components,
            ComponentType::UnsignedByte => self.components as int,
        }
    }

    /// Distance in bytes from the start of the vertex to the end of the
    /// attribute.
    pub open spec fn end(self) -> int {
        self.offset + self.size()
    }
}

/// Number of bytes of one vertex in the vertex buffer.
pub const VERTEX_STRIDE: usize = 16;

/// The attributes of a vertex in the vertex buffer: the position as two
/// numbers, the color as four bytes that stand for fractions, and the
/// dash period as one number.
pub open spec fn vertex_attributes() -> Seq<VertexAttribute> {
    seq![
        VertexAttribute {
            index: 0,
            components: 2,
            component_type: ComponentType::Float,
            normalized: false,
            offset: 0,
        },
        VertexAttribute {
            index: 1,
            components: 4,
            component_type: ComponentType::UnsignedByte,
            normalized: true,
            offset: 8,
        },
        VertexAttribute {
            index: 2,
            components: 1,
            component_type: ComponentType::Float,
            normalized: false,
            offset: 12,
        },
    ]
}

/// The attributes fill a vertex without gap or overlap: the first starts
/// the vertex, each other one starts where the one before it ends, and
/// the last ends the vertex. Their slots count up from 0.
pub proof fn lemma_vertex_attributes_packed()
    ensures
        vertex_attributes().len() == 3,
        vertex_attributes()[0].offset == 0,
        forall|i: int, j: int|
            0 <= i && j == i + 1 && j < 3 ==> (#[trigger] vertex_attributes()[j]).offset == (
            #[trigger] vertex_attributes()[i]).end(),
        vertex_attributes()[2].end() == VERTEX_STRIDE,
        forall|i: int| 0 <= i < 3 ==> (#[trigger] vertex_attributes()[i]).index == i,
{
}

/// Appends an attribute that starts at byte `offset`, and returns the
/// byte at which it ends.
fn push_attribute(
    layout: &mut Vec<VertexAttribute>,
    components: u8,
    component_type: ComponentType,
    normalized: bool,
    offset: usize,
) -> (end: usize)
    requires
        old(layout)@.len() < 16,
        offset <= 1024,
    ensures
        final(layout)@ == old(layout)@.push(
            (VertexAttribute {
                index: old(layout)@.len() as u32,
                components,
                component_type,
                normalized,
                offset,
            }),
        ),
        end == final(layout)@.last().end(),
{
    let index: u32 = layout.len() as u32;
    let size: usize = match component_type {
        ComponentType::Float => 4 * (components as usize),
        ComponentType::UnsignedByte => components as usize,
    };
    layout.push(VertexAttribute { index, components, component_type, normalized, offset });
    offset + size
}

/// The attributes of a vertex in the vertex buffer, in the order of their
/// slots.
pub fn vertex_layout() -> (layout: Vec<VertexAttribute>)
    ensures
        layout@ == vertex_attributes(),
{
    let mut layout: Vec<VertexAttribute> = Vec::new();
    let offset: usize = push_attribute(&mut layout, 2, ComponentType::Float, false, 0);
    let offset: usize = push_attribute(&mut layout, 4, ComponentType::UnsignedByte, true, offset);
    let offset: usize = push_attribute(&mut layout, 1, ComponentType::Float, false, offset);
    layout
}

/// Builds the triangles of a frame's rectangles and says how to present
/// them.
#[derive(Debug)]
pub struct RectRenderer {
    vertices: Vec<Vertex>,
}

impl View for RectRenderer {
    type V = Seq<Vertex>;

    /// The vertices of the last frame.
    closed spec fn view(&self) -> Seq<Vertex> {
        self.vertices@
    }
}

impl RectRenderer {
    /// A renderer that has drawn nothing yet.
    pub fn new() -> (renderer: RectRenderer)
        ensures
            renderer@ == Seq::<Vertex>::empty(),
    {
        RectRenderer { vertices: Vec::new() }
    }

    /// The vertices of the last frame.
    pub fn vertices(&self) -> (vertices: &Vec<Vertex>)
        ensures
            vertices@ == self@,
    {
        &self.vertices
    }

    /// Replaces the vertices of the last frame by the triangles of
    /// `rects`, six vertices for each, and returns the calls that present
    /// them: one upload of all the vertices, then one draw call for all of
    /// them.
    pub fn draw(&mut self, size_info: &SizeInfo, rects: Vec<RenderRect>) -> (commands: Vec<
        GpuCommand,
    >)
        ensures
            final(self)@ == batch(rects@, *size_info),
            final(self)@.len() == 6 * rects@.len(),
            commands@ == seq![
                (GpuCommand::BufferData { vertices: (6 * rects@.len()) as usize }),
                (GpuCommand::DrawTriangles { first: 0, count: (6 * rects@.len()) as usize }),
            ],
    {
        self.vertices.clear();
        let mut i: usize = 0;
        while i < rects.len()
            invariant
                i <= rects@.len(),
                self@ == batch(rects@.take(i as int), *size_info),
            decreases rects@.len() - i,
        {
            assert(rects@.take(i + 1).drop_last() == rects@.take(i as int));
            self.add_rect(size_info, &rects[i]);
            i += 1;
        }
        assert(rects@.take(i as int) == rects@);
        proof {
            lemma_batch_six_per_rect(rects@, *size_info);
        }
        let count: usize = self.vertices.len();
        let mut commands: Vec<GpuCommand> = Vec::new();
        commands.push(GpuCommand::BufferData { vertices: count });
        commands.push(GpuCommand::DrawTriangles { first: 0, count });
        commands
    }

    /// Appends the two triangles that cover `rect`.
    fn add_rect(&mut self, size_info: &SizeInfo, rect: &RenderRect)
        ensures
            final(self)@ == old(self)@ + quad(*rect, *size_info),
    {
        let width: i128 = size_info.width as i128;
        let height: i128 = size_info.height as i128;
        let x: i128 = rect.x as i128;
        let y: i128 = rect.y as i128;
        let left: Ndc = Ndc { num: 2 * x - width, den: size_info.width as i64 };
        let right: Ndc = Ndc {
            num: 2 * (x + rect.width as i128) - width,
            den: size_info.width as i64,
        };
        let top: Ndc = Ndc { num: height - 2 * y, den: size_info.height as i64 };
        let bottom: Ndc = Ndc {
            num: height - 2 * (y + rect.height as i128),
            den: size_info.height as i64,
        };
        let period: Ndc = match rect.style {
            RectStyle::Solid => Ndc { num: 4, den: 1 },
            RectStyle::Dashed { period } => Ndc {
                num: 2 * (period as i128),
                den: size_info.width as i64,
            },
        };
        let r: u8 = rect.color.r;
        let g: u8 = rect.color.g;
        let b: u8 = rect.color.b;
        let a: u8 = rect.alpha;
        self.vertices.push(Vertex { x: right, y: top, r, g, b, a, period });
        self.vertices.push(Vertex { x: left, y: top, r, g, b, a, period });
        self.vertices.push(Vertex { x: left, y: bottom, r, g, b, a, period });
        self.vertices.push(Vertex { x: right, y: bottom, r, g, b, a, period });
        self.vertices.push(Vertex { x: right, y: top, r, g, b, a, period });
        self.vertices.push(Vertex { x: left, y: bottom, r, g, b, a, period });
    }
}

} // verus!
