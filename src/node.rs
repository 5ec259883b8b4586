use vstd::prelude::*;

use crate::scalar::Scalar;

verus! {

/// Which of the two quantities of one axis of a node is given; the other one
/// is what the solver computes.
#[derive(Clone, Copy, Debug, PartialEq, Eq, Structural)]
pub enum KnownType {
    /// The force is applied; the displacement is solved for.
    Force,
    /// The displacement is prescribed; the reaction force is solved for.
    Displacement,
}

/// A mesh node: its position, its displacement and force (one component per
/// axis), and for each axis which of the two is given.
#[derive(Clone, Copy, Debug)]
pub struct Node2D<S> {
    pub position: [S; 2],
    pub displacement: [S; 2],
    pub force: [S; 2],
    pub known: [KnownType; 2],
}

impl<S: Scalar> Node2D<S> {
    /// A node at `(x, y)`, with both axes force-known and zero displacement
    /// and force.
    pub fn zero_at(point: (S, S)) -> (r: Self)
        ensures
            r == (Node2D {
                position: [point.0, point.1],
                displacement: [S::spec_zero(), S::spec_zero()],
                force: [S::spec_zero(), S::spec_zero()],
                known: [KnownType::Force, KnownType::Force],
            }),
    {
        let z = S::zero();
        Node2D {
            position: [point.0, point.1],
            displacement: [z, z],
            force: [z, z],
            known: [KnownType::Force, KnownType::Force],
        }
    }

    pub fn get_pos_x(&self) -> (r: S)
        ensures
            r == self.position@[0],
    {
        self.position[0]
    }

    pub fn get_pos_y(&self) -> (r: S)
        ensures
            r == self.position@[1],
    {
        self.position[1]
    }

    pub fn set_pos_x(&mut self, value: S)
        ensures
            final(self).position@ == old(self).position@.update(0, value),
            final(self).displacement == old(self).displacement,
            final(self).force == old(self).force,
            final(self).known == old(self).known,
    {
        self.position[0] = value;
    }

    pub fn set_pos_y(&mut self, value: S)
        ensures
            final(self).position@ == old(self).position@.update(1, value),
            final(self).displacement == old(self).displacement,
            final(self).force == old(self).force,
            final(self).known == old(self).known,
    {
        self.position[1] = value;
    }

    pub fn get_disp_x(&self) -> (r: S)
        ensures
            r == self.displacement@[0],
    {
        self.displacement[0]
    }

    pub fn get_disp_y(&self) -> (r: S)
        ensures
            r == self.displacement@[1],
    {
        self.displacement[1]
    }

    pub fn set_disp_x(&mut self, value: S)
        ensures
            final(self).displacement@ == old(self).displacement@.update(0, value),
            final(self).position == old(self).position,
            final(self).force == old(self).force,
            final(self).known == old(self).known,
    {
        self.displacement[0] = value;
    }

    pub fn set_disp_y(&mut self, value: S)
        ensures
            final(self).displacement@ == old(self).displacement@.update(1, value),
            final(self).position == old(self).position,
            final(self).force == old(self).force,
            final(self).known == old(self).known,
    {
        self.displacement[1] = value;
    }

    pub fn get_force_x(&self) -> (r: S)
        ensures
            r == self.force@[0],
    {
        self.force[0]
    }

    pub fn get_force_y(&self) -> (r: S)
        ensures
            r == self.force@[1],
    {
        self.force[1]
    }

    pub fn set_force_x(&mut self, value: S)
        ensures
            final(self).force@ == old(self).force@.update(0, value),
            final(self).position == old(self).position,
            final(self).displacement == old(self).displacement,
            final(self).known == old(self).known,
    {
        self.force[0] = value;
    }

    pub fn set_force_y(&mut self, value: S)
        ensures
            final(self).force@ == old(self).force@.update(1, value),
            final(self).position == old(self).position,
            final(self).displacement == old(self).displacement,
            final(self).known == old(self).known,
    {
        self.force[1] = value;
    }

    pub fn get_known_x(&self) -> (r: KnownType)
        ensures
            r == self.known@[0],
    {
        self.known[0]
    }

    pub fn get_known_y(&self) -> (r: KnownType)
        ensures
            r == self.known@[1],
    {
        self.known[1]
    }

    pub fn set_known_x(&mut self, known: KnownType)
        ensures
            final(self).known@ == old(self).known@.update(0, known),
            final(self).position == old(self).position,
            final(self).displacement == old(self).displacement,
            final(self).force == old(self).force,
    {
        self.known[0] = known;
    }

    pub fn set_known_y(&mut self, known: KnownType)
        ensures
            final(self).known@ == old(self).known@.update(1, known),
            final(self).position == old(self).position,
            final(self).displacement == old(self).displacement,
            final(self).force == old(self).force,
    {
        self.known[1] = known;
    }
}

} // verus!
