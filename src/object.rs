use vstd::prelude::*;
use crate::controller::Command;
use crate::physics::{Kinetics, Physics};

verus! {

/// Where an entity stands, in fixed-point coordinates, and its colour.
#[derive(Debug, Clone, Copy, PartialEq, Eq, Structural)]
pub struct Placement {
    pub x: i64,
    pub y: i64,
    pub z: i64,
    pub r: i64,
    pub g: i64,
    pub b: i64,
}

impl Placement {
    /// The coordinates as a homogeneous four-vector with a zero last entry.
    pub fn placement_vector(&self) -> (r: [i64; 4])
        ensures
            r@ == seq![self.x, self.y, self.z, 0i64],
    {
        let r = [self.x, self.y, self.z, 0];
        assert(r@ =~= seq![self.x, self.y, self.z, 0i64]);
        r
    }

    /// The placement of a body: its position in the plane `z = 0`, uncoloured.
    pub open spec fn spec_from_kinetics(k: Kinetics) -> Placement {
        Placement { x: k.spec_position().x, y: k.spec_position().y, z: 0, r: 0, g: 0, b: 0 }
    }

    /// The placement of a body: its position in the plane `z = 0`, uncoloured.
    pub fn from_kinetics(k: &Kinetics) -> (r: Placement)
        ensures
            r == Placement::spec_from_kinetics(*k),
    {
        let p = k.position();
        Placement { x: p.x, y: p.y, z: 0, r: 0, g: 0, b: 0 }
    }
}

/// The mesh of an entity as the renderer knows it: the renderer's
/// identifiers of its vertex and index buffers, and how many indices to draw.
#[derive(Debug, Clone, Copy, PartialEq, Eq, Structural)]
pub struct MeshHandles {
    pub vertex_buffer: u64,
    pub index_buffer: u64,
    pub num_indices: u32,
}

/// Why an entity's mesh cannot be handed out.
#[derive(Debug, Clone, Copy, PartialEq, Eq, Structural)]
pub enum MeshError {
    /// The renderer has not initialised the entity's mesh yet.
    Uninitialized,
}

/// What every controllable entity offers: a move for each direction, its
/// placement, its mesh once the renderer has set it up, and its physics
/// handle.
pub trait Object: Sized {
    /// The entity after the move that `c` asks for.
    spec fn spec_after(&self, c: Command) -> Self;

    /// Where the entity stands.
    spec fn spec_placement(&self) -> Placement;

    fn move_up(&mut self)
        ensures
            *final(self) == old(self).spec_after(Command::Up),
    ;

    fn move_down(&mut self)
        ensures
            *final(self) == old(self).spec_after(Command::Down),
    ;

    fn move_left(&mut self)
        ensures
            *final(self) == old(self).spec_after(Command::Left),
    ;

    fn move_right(&mut self)
        ensures
            *final(self) == old(self).spec_after(Command::Right),
    ;

    fn placement(&self) -> (r: &Placement)
        ensures
            *r == self.spec_placement(),
    ;

    /// The mesh handles, once the renderer has initialised them.
    spec fn spec_mesh(&self) -> Option<MeshHandles>;

    /// Takes the mesh handles that the renderer made for this entity.
    fn init(&mut self, handles: MeshHandles)
        ensures
            final(self).spec_mesh() == Some(handles),
            final(self).spec_placement() == old(self).spec_placement(),
    ;

    /// The mesh handles; asking before `init` is an error.
    fn mesh(&self) -> (r: Result<MeshHandles, MeshError>)
        ensures
            r == (match self.spec_mesh() {
                Some(h) => Ok::<MeshHandles, MeshError>(h),
                None => Err(MeshError::Uninitialized),
            }),
    ;

    fn get_physics(&mut self) -> &mut Physics;
}

/// `v + d`, held at the ends of the `i64` range.
pub open spec fn shifted(v: int, d: int) -> int {
    if v + d > i64::MAX {
        i64::MAX as int
    } else if v + d < i64::MIN {
        i64::MIN as int
    } else {
        v + d
    }
}

fn shift(v: i64, d: i64) -> (r: i64)
    ensures
        r == shifted(v as int, d as int),
{
    let w = (v as i128) + (d as i128);
    if w > i64::MAX as i128 {
        i64::MAX
    } else if w < i64::MIN as i128 {
        i64::MIN
    } else {
        w as i64
    }
}

/// A single controllable entity that moves its placement by a fixed step in
/// the plane: up and down along `y`, left and right along `x`. Coordinates
/// stop at the ends of their range.
pub struct Avatar {
    pub placement: Placement,
    pub step: i64,
    pub mesh: Option<MeshHandles>,
    pub physics: Physics,
}

impl Avatar {
    /// An avatar at `placement` that moves `step` per command, with no mesh
    /// yet.
    pub fn new(placement: Placement, step: i64) -> (r: Self)
        ensures
            r.placement == placement,
            r.step == step,
            r.mesh is None,
    {
        Avatar { placement, step, mesh: None, physics: Physics {  } }
    }

    /// The displacement, as `(dx, dy)`, that one command asks of an avatar
    /// with step `step`.
    pub open spec fn displacement(step: int, c: Command) -> (int, int) {
        match c {
            Command::Up => (0, step),
            Command::Down => (0, -step),
            Command::Left => (-step, 0),
            Command::Right => (step, 0),
            _ => (0, 0),
        }
    }
}

impl Object for Avatar {
    open spec fn spec_after(&self, c: Command) -> Self {
        let d = Avatar::displacement(self.step as int, c);
        Avatar {
            placement: Placement {
                x: shifted(self.placement.x as int, d.0) as i64,
                y: shifted(self.placement.y as int, d.1) as i64,
                ..self.placement
            },
            ..*self
        }
    }

    open spec fn spec_placement(&self) -> Placement {
        self.placement
    }

    fn move_up(&mut self) {
        self.placement.y = shift(self.placement.y, self.step);
    }

    fn move_down(&mut self) {
        let d: i128 = -(self.step as i128);
        self.placement.y = if d > i64::MAX as i128 {
            shift(shift(self.placement.y, i64::MAX), 1)
        } else {
            shift(self.placement.y, d as i64)
        };
    }

    fn move_left(&mut self) {
        let d: i128 = -(self.step as i128);
        self.placement.x = if d > i64::MAX as i128 {
            shift(shift(self.placement.x, i64::MAX), 1)
        } else {
            shift(self.placement.x, d as i64)
        };
    }

    fn move_right(&mut self) {
        self.placement.x = shift(self.placement.x, self.step);
    }

    fn placement(&self) -> (r: &Placement) {
        &self.placement
    }

    open spec fn spec_mesh(&self) -> Option<MeshHandles> {
        self.mesh
    }

    fn init(&mut self, handles: MeshHandles) {
        self.mesh = Some(handles);
    }

    fn mesh(&self) -> (r: Result<MeshHandles, MeshError>) {
        match self.mesh {
            Some(h) => Ok(h),
            None => Err(MeshError::Uninitialized),
        }
    }

    fn get_physics(&mut self) -> &mut Physics {
        &mut self.physics
    }
}

} // verus!
