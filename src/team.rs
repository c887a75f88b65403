use vstd::prelude::*;

verus! {

/// The board edge a team starts from, with an offset along that edge.
///
/// The offset shifts the team's pieces along the team's own x axis.
#[derive(Clone, Copy, Debug, PartialEq, Eq, Structural)]
pub enum StartInfo {
    Bottom { offset: u32 },
    Top { offset: u32 },
    Left { offset: u32 },
    Right { offset: u32 },
}

impl StartInfo {
    pub open spec fn offset_of(self) -> u32 {
        match self {
            StartInfo::Bottom { offset } => offset,
            StartInfo::Top { offset } => offset,
            StartInfo::Left { offset } => offset,
            StartInfo::Right { offset } => offset,
        }
    }

    /// The offset along the team's own x axis.
    pub fn offset(&self) -> (r: u32)
        ensures
            r == self.offset_of(),
    {
        match self {
            StartInfo::Bottom { offset } => *offset,
            StartInfo::Top { offset } => *offset,
            StartInfo::Left { offset } => *offset,
            StartInfo::Right { offset } => *offset,
        }
    }
}

/// A team: its unique name, its starting edge and its move counter.
pub struct Team {
    pub name: String,
    pub start_info: StartInfo,
    pub current_move_number: u32,
}

impl Clone for Team {
    fn clone(&self) -> (r: Self)
        ensures
            r == *self,
    {
        Team {
            name: self.name.clone(),
            start_info: self.start_info,
            current_move_number: self.current_move_number,
        }
    }
}

impl Team {
    pub fn new(name: String, start_direction: StartInfo) -> (r: Self)
        ensures
            r.name == name,
            r.start_info == start_direction,
            r.current_move_number == 0,
    {
        Self { name, start_info: start_direction, current_move_number: 0 }
    }

    pub fn name(&self) -> (r: String)
        ensures
            r == self.name,
    {
        self.name.clone()
    }

    pub fn start_info(&self) -> (r: StartInfo)
        ensures
            r == self.start_info,
    {
        self.start_info
    }

    pub fn current_move_number(&self) -> (r: u32)
        ensures
            r == self.current_move_number,
    {
        self.current_move_number
    }

    pub fn increment_move(&mut self)
        requires
            old(self).current_move_number < u32::MAX,
        ensures
            final(self).current_move_number == old(self).current_move_number + 1,
            final(self).name == old(self).name,
            final(self).start_info == old(self).start_info,
    {
        self.current_move_number = self.current_move_number + 1;
    }

    pub fn decrement_move(&mut self)
        requires
            old(self).current_move_number > 0,
        ensures
            final(self).current_move_number == old(self).current_move_number - 1,
            final(self).name == old(self).name,
            final(self).start_info == old(self).start_info,
    {
        self.current_move_number = self.current_move_number - 1;
    }
}

} // verus!
