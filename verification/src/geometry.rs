//! Vertex buffers, attribute layouts and per-instance streams.
//!
//! [`Geometry`] is the CPU-side record of a drawable shape: a flat vertex
//! buffer, its attribute layout, a topology, and the bookkeeping of an
//! optional per-instance attribute stream. The embedding mirrors this state
//! into GPU buffers; everything the draw dispatch depends on — vertex and
//! instance counts, capacities, the whole-array replacement semantics of an
//! instance update — is verified here.

use crate::camera::Vec2;
use crate::color::Color;
use crate::rat::Rat;
use vstd::prelude::*;

verus! {

/// How a vertex stream is assembled into primitives.
#[derive(Clone, Copy, Debug, PartialEq, Eq, Structural)]
pub enum DrawingMode {
    Points,
    Triangles,
    TriangleStrip,
    TriangleFan,
}

/// The size in bytes of one vertex component as uploaded (a 32-bit float).
pub const COMPONENT_BYTES: usize = 4;

/// A vertex attribute layout: where in the vertex stream one shader input
/// lives.
#[derive(Clone, Copy, Debug, PartialEq, Eq, Structural)]
pub struct Attribute {
    /// The attribute index in the shader.
    pub location: u32,
    /// Number of components for this attribute.
    pub size: i32,
    /// Whether fixed-point values are normalized.
    pub normalize: bool,
    /// Byte offset between consecutive vertices.
    pub stride: i32,
    /// Byte offset of this attribute within a vertex.
    pub offset: i32,
    /// 0 = per-vertex, 1 = per-instance.
    pub divisor: u32,
}

impl Attribute {
    /// A per-vertex attribute, with stride and offset given in components.
    pub fn new(location: u32, size: i32, stride_components: usize, offset_components: usize) -> (a:
        Attribute)
        requires
            stride_components * COMPONENT_BYTES <= i32::MAX,
            offset_components * COMPONENT_BYTES <= i32::MAX,
        ensures
            a.location == location,
            a.size == size,
            !a.normalize,
            a.stride == stride_components * COMPONENT_BYTES,
            a.offset == offset_components * COMPONENT_BYTES,
            a.divisor == 0,
    {
        Attribute {
            location,
            size,
            normalize: false,
            stride: (stride_components * COMPONENT_BYTES) as i32,
            offset: (offset_components * COMPONENT_BYTES) as i32,
            divisor: 0,
        }
    }

    /// A tightly packed per-instance 2-vector attribute.
    pub fn instanced_vec2(location: u32) -> (a: Attribute)
        ensures
            a.location == location,
            a.size == 2,
            !a.normalize,
            a.stride == 2 * COMPONENT_BYTES,
            a.offset == 0,
            a.divisor == 1,
    {
        Attribute {
            location,
            size: 2,
            normalize: false,
            stride: (2 * COMPONENT_BYTES) as i32,
            offset: 0,
            divisor: 1,
        }
    }

    /// A tightly packed per-instance 4-vector attribute (e.g. RGBA color).
    pub fn instanced_vec4(location: u32) -> (a: Attribute)
        ensures
            a.location == location,
            a.size == 4,
            !a.normalize,
            a.stride == 4 * COMPONENT_BYTES,
            a.offset == 0,
            a.divisor == 1,
    {
        Attribute {
            location,
            size: 4,
            normalize: false,
            stride: (4 * COMPONENT_BYTES) as i32,
            offset: 0,
            divisor: 1,
        }
    }
}

/// A drawable shape's buffers and instancing state.
///
/// The per-instance stream follows the whole-array replacement contract:
/// the effective instance count for drawing is always the length of the
/// most recent position update, never the capacity passed to
/// `enable_instancing_xy`, which is only an allocation hint.
pub struct Geometry {
    /// Flat per-vertex components.
    pub verts: Vec<Rat>,
    /// Components per vertex in `verts`.
    pub values_per_vertex: usize,
    /// Number of vertices in `verts`.
    pub vertex_count: usize,
    /// The primitive topology.
    pub drawing_mode: DrawingMode,
    /// Attribute layouts registered so far.
    pub attributes: Vec<Attribute>,
    /// Capacity hint of the per-instance position stream, if enabled.
    pub instance_xy_capacity: Option<usize>,
    /// Capacity hint of the per-instance color stream, if enabled.
    pub instance_color_capacity: Option<usize>,
    /// The positions of the live instances (the last update, in full).
    pub instance_positions: Ghost<Seq<Vec2>>,
    /// The colors of the live instances (the last update, in full).
    pub instance_colors: Ghost<Seq<Color>>,
    /// Number of live instances.
    pub instance_count: usize,
}

impl Geometry {
    /// A new, empty geometry with the given topology.
    pub fn new(drawing_mode: DrawingMode) -> (g: Geometry)
        ensures
            g.verts@ == Seq::<Rat>::empty(),
            g.vertex_count == 0,
            g.drawing_mode == drawing_mode,
            g.attributes@ == Seq::<Attribute>::empty(),
            g.instance_xy_capacity is None,
            g.instance_color_capacity is None,
            g.instance_count == 0,
    {
        Geometry {
            verts: Vec::new(),
            values_per_vertex: 0,
            vertex_count: 0,
            drawing_mode,
            attributes: Vec::new(),
            instance_xy_capacity: None,
            instance_color_capacity: None,
            instance_positions: Ghost(Seq::empty()),
            instance_colors: Ghost(Seq::empty()),
            instance_count: 0,
        }
    }

    /// Attach the vertex buffer: `values_per_vertex` components per vertex.
    pub fn add_buffer(&mut self, buffer: Vec<Rat>, values_per_vertex: usize)
        requires
            values_per_vertex > 0,
        ensures
            final(self).verts == buffer,
            final(self).values_per_vertex == values_per_vertex,
            final(self).vertex_count == buffer@.len() as int / values_per_vertex as int,
            final(self).drawing_mode == old(self).drawing_mode,
            final(self).attributes == old(self).attributes,
            final(self).instance_xy_capacity == old(self).instance_xy_capacity,
            final(self).instance_color_capacity == old(self).instance_color_capacity,
            final(self).instance_count == old(self).instance_count,
    {
        let count = buffer.len() / values_per_vertex;
        self.verts = buffer;
        self.values_per_vertex = values_per_vertex;
        self.vertex_count = count;
    }

    /// Register a vertex attribute layout.
    pub fn add_vertex_attribute(&mut self, attribute: Attribute)
        ensures
            final(self).attributes@ == old(self).attributes@.push(attribute),
            final(self).verts == old(self).verts,
            final(self).values_per_vertex == old(self).values_per_vertex,
            final(self).vertex_count == old(self).vertex_count,
            final(self).drawing_mode == old(self).drawing_mode,
            final(self).instance_xy_capacity == old(self).instance_xy_capacity,
            final(self).instance_color_capacity == old(self).instance_color_capacity,
            final(self).instance_count == old(self).instance_count,
    {
        self.attributes.push(attribute);
    }

    /// Enable the per-instance position stream, sized for `max_instances`
    /// instances. The capacity is an upper-bound hint for allocation only.
    pub fn enable_instancing_xy(&mut self, max_instances: usize)
        ensures
            final(self).instance_xy_capacity == Some(max_instances),
            *final(self) == (Geometry {
                instance_xy_capacity: Some(max_instances),
                ..*old(self)
            }),
    {
        self.instance_xy_capacity = Some(max_instances);
    }

    /// Enable the per-instance color stream, sized for `max_instances`
    /// instances.
    pub fn enable_instancing_color(&mut self, max_instances: usize)
        ensures
            final(self).instance_color_capacity == Some(max_instances),
            *final(self) == (Geometry {
                instance_color_capacity: Some(max_instances),
                ..*old(self)
            }),
    {
        self.instance_color_capacity = Some(max_instances);
    }

    /// Replace the whole instance position stream. The live instance count
    /// becomes the length of `xy` — independently of the capacity the
    /// stream was enabled with. Does nothing when the stream is not
    /// enabled.
    pub fn update_instance_xy(&mut self, xy: &[Vec2])
        ensures
            old(self).instance_xy_capacity is Some ==> {
                &&& final(self).instance_positions@ == xy@
                &&& final(self).instance_count == xy@.len()
                &&& *final(self) == (Geometry {
                    instance_positions: final(self).instance_positions,
                    instance_count: xy@.len() as usize,
                    ..*old(self)
                })
            },
            old(self).instance_xy_capacity is None ==> *final(self) == *old(self),
    {
        if self.instance_xy_capacity.is_none() {
            return ;
        }
        self.instance_positions = Ghost(xy@);
        self.instance_count = xy.len();
    }

    /// Replace the whole instance color stream, enabling it first (sized to
    /// the update) when it was not enabled. Does not change the instance
    /// count: only position updates do.
    pub fn update_instance_colors(&mut self, colors: &[Color])
        ensures
            final(self).instance_colors@ == colors@,
            final(self).instance_color_capacity == if old(self).instance_color_capacity is None {
                Some(colors@.len() as usize)
            } else {
                old(self).instance_color_capacity
            },
            *final(self) == (Geometry {
                instance_colors: final(self).instance_colors,
                instance_color_capacity: final(self).instance_color_capacity,
                ..*old(self)
            }),
    {
        if self.instance_color_capacity.is_none() {
            self.instance_color_capacity = Some(colors.len());
        }
        self.instance_colors = Ghost(colors@);
    }

    /// Drop all live instances; the allocation is kept for reuse.
    pub fn clear_instancing(&mut self)
        ensures
            final(self).instance_count == 0,
            *final(self) == (Geometry { instance_count: 0, ..*old(self) }),
    {
        self.instance_count = 0;
    }

    /// Number of live instances.
    pub fn instance_count(&self) -> (r: usize)
        ensures
            r == self.instance_count,
    {
        self.instance_count
    }

    /// The primitive topology.
    pub fn drawing_mode(&self) -> (r: DrawingMode)
        ensures
            r == self.drawing_mode,
    {
        self.drawing_mode
    }

    /// Number of vertices in the vertex buffer.
    pub fn vertex_count(&self) -> (r: usize)
        ensures
            r == self.vertex_count,
    {
        self.vertex_count
    }
}

} // verus!
