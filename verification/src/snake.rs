//! The snake itself: its heading, its ordered body of grid cells, and the
//! most recently dropped tail cell, which a grow operation can restore.

use vstd::prelude::*;
use std::collections::VecDeque;

verus! {

/// One of the four cardinal directions of travel.
#[derive(Clone, Copy, PartialEq, Eq, Structural, Debug)]
pub enum Direction {
    Up,
    Down,
    Left,
    Right,
}

/// The direction of travel after a 180-degree turn.
pub open spec fn spec_opposite(d: Direction) -> Direction {
    match d {
        Direction::Up => Direction::Down,
        Direction::Down => Direction::Up,
        Direction::Left => Direction::Right,
        Direction::Right => Direction::Left,
    }
}

/// The direction encoded by a small integer, `Err` outside `0..=3`.
pub open spec fn spec_try_direction(value: i32) -> Result<Direction, ()> {
    if value == 0 {
        Ok(Direction::Up)
    } else if value == 1 {
        Ok(Direction::Down)
    } else if value == 2 {
        Ok(Direction::Left)
    } else if value == 3 {
        Ok(Direction::Right)
    } else {
        Err(())
    }
}

impl Direction {
    pub fn opposite(&self) -> (r: Direction)
        ensures
            r == spec_opposite(*self),
    {
        match *self {
            Direction::Up => Direction::Down,
            Direction::Down => Direction::Up,
            Direction::Left => Direction::Right,
            Direction::Right => Direction::Left,
        }
    }

    pub fn try_from(value: i32) -> (r: Result<Direction, ()>)
        ensures
            r == spec_try_direction(value),
    {
        match value {
            0 => Ok(Direction::Up),
            1 => Ok(Direction::Down),
            2 => Ok(Direction::Left),
            3 => Ok(Direction::Right),
            _ => Err(()),
        }
    }
}

/// A 180-degree turn undone by another 180-degree turn gives back the
/// original direction: `opposite` is an involution.
pub proof fn lemma_opposite_involution(d: Direction)
    ensures
        spec_opposite(spec_opposite(d)) == d,
{
}

/// A single grid cell, addressed by unsigned column and row coordinates.
#[derive(Clone, Copy, PartialEq, Eq, Structural, Debug)]
pub struct Block {
    pub x: u32,
    pub y: u32,
}

/// The cell one step from `b` in direction `d` (coordinates taken modulo
/// the `u32` range; exec callers rule wrapping out by precondition).
pub open spec fn spec_next_block(b: Block, d: Direction) -> Block {
    match d {
        Direction::Up => Block { x: b.x, y: (b.y - 1) as u32 },
        Direction::Down => Block { x: b.x, y: (b.y + 1) as u32 },
        Direction::Left => Block { x: (b.x - 1) as u32, y: b.y },
        Direction::Right => Block { x: (b.x + 1) as u32, y: b.y },
    }
}

/// True when stepping from `b` in direction `d` neither underflows nor
/// overflows a `u32` coordinate.
pub open spec fn spec_step_fits(b: Block, d: Direction) -> bool {
    &&& (d == Direction::Up ==> b.y >= 1)
    &&& (d == Direction::Left ==> b.x >= 1)
    &&& (d == Direction::Down ==> b.y < u32::MAX)
    &&& (d == Direction::Right ==> b.x < u32::MAX)
}

impl Block {
    pub fn next_direction(&self, dir: Direction) -> (r: Block)
        requires
            spec_step_fits(*self, dir),
        ensures
            r == spec_next_block(*self, dir),
    {
        match dir {
            Direction::Up => Block { x: self.x, y: self.y - 1 },
            Direction::Down => Block { x: self.x, y: self.y + 1 },
            Direction::Left => Block { x: self.x - 1, y: self.y },
            Direction::Right => Block { x: self.x + 1, y: self.y },
        }
    }
}

/// The three-cell body laid out backward from head `(x, y)` along heading
/// `d`: head first, tail last.
pub open spec fn spec_spawn_body(x: u32, y: u32, d: Direction) -> Seq<Block> {
    let head = Block { x, y };
    let mid = spec_next_block(head, spec_opposite(d));
    let back = spec_next_block(mid, spec_opposite(d));
    seq![head, mid, back]
}

pub struct Snake {
    pub direction: Direction,
    pub body: VecDeque<Block>,
    pub tail: Option<Block>,
}

impl Snake {
    /// The body is never empty, so the head is always defined.
    pub open spec fn wf(&self) -> bool {
        self.body@.len() >= 1
    }

    /// The direction a movement operation would use: the override when one
    /// is given, else the current heading.
    pub open spec fn spec_effective_dir(&self, dir: Option<Direction>) -> Direction {
        match dir {
            Some(d) => d,
            None => self.direction,
        }
    }

    /// The cell the head would occupy after the next advance.
    pub open spec fn spec_next_head(&self, dir: Option<Direction>) -> Block {
        spec_next_block(self.body@[0], self.spec_effective_dir(dir))
    }

    /// A new snake: heading `dir`, three cells extending backward from the
    /// head `(x, y)`, no dropped tail yet.
    pub fn new(x: u32, y: u32, dir: Direction) -> (s: Snake)
        requires
            2 <= x,
            2 <= y,
            x + 2 <= u32::MAX,
            y + 2 <= u32::MAX,
        ensures
            s.direction == dir,
            s.body@ == spec_spawn_body(x, y, dir),
            s.body@.len() == 3,
            s.body@[0] == (Block { x, y }),
            s.tail is None,
            s.wf(),
    {
        let head = Block { x, y };
        let mid = head.next_direction(dir.opposite());
        let back = mid.next_direction(dir.opposite());
        let mut body: VecDeque<Block> = VecDeque::new();
        body.push_back(head);
        body.push_back(mid);
        body.push_back(back);
        Snake { direction: dir, body, tail: None }
    }

    pub fn head_position(&self) -> (r: Result<Block, String>)
        requires
            self.wf(),
        ensures
            r == Ok::<Block, String>(self.body@[0]),
    {
        Ok(self.body[0])
    }

    pub fn head_direction(&self) -> (r: Direction)
        ensures
            r == self.direction,
    {
        self.direction
    }

    /// The cell the head would move to, without mutating anything.
    pub fn next_head(&self, dir: Option<Direction>) -> (r: Block)
        requires
            self.wf(),
            spec_step_fits(self.body@[0], self.spec_effective_dir(dir)),
        ensures
            r == self.spec_next_head(dir),
    {
        let curr_head = self.body[0];
        let moving_dir = match dir {
            Some(d) => d,
            None => self.direction,
        };
        curr_head.next_direction(moving_dir)
    }

    /// Advance one cell: adopt the override direction if given, push the
    /// next head cell onto the front, and drop the back cell, remembering
    /// it so that `restore_tail` can undo the shrink. The length is
    /// unchanged and the new head is exactly what `next_head` promised.
    pub fn move_forward(&mut self, dir: Option<Direction>)
        requires
            old(self).wf(),
            spec_step_fits(old(self).body@[0], old(self).spec_effective_dir(dir)),
        ensures
            final(self).direction == old(self).spec_effective_dir(dir),
            final(self).body@ == seq![old(self).spec_next_head(dir)] + old(self).body@.drop_last(),
            final(self).body@.len() == old(self).body@.len(),
            final(self).body@[0] == old(self).spec_next_head(dir),
            final(self).tail == Some(old(self).body@.last()),
            final(self).wf(),
    {
        match dir {
            Some(d) => self.direction = d,
            None => (),
        };

        let curr_head = self.body[0];
        let new_head = curr_head.next_direction(self.direction);
        self.body.push_front(new_head);
        let dropped = self.body.pop_back();
        self.tail = dropped;
        proof {
            assert(self.body@ =~= seq![old(self).spec_next_head(dir)]
                + old(self).body@.drop_last());
        }
    }

    /// Re-append the most recently dropped tail cell: the body grows by one
    /// and its new back cell is exactly the dropped cell.
    pub fn restore_tail(&mut self)
        requires
            old(self).tail is Some,
        ensures
            final(self).body@ == old(self).body@.push(old(self).tail->0),
            final(self).body@.len() == old(self).body@.len() + 1,
            final(self).direction == old(self).direction,
            final(self).tail == old(self).tail,
            final(self).wf(),
    {
        let tail_block = self.tail.unwrap();
        self.body.push_back(tail_block);
    }

    /// True when `pos` lies on the body with the tail cell excluded: the
    /// tail vacates its cell on the very next advance, so counting it
    /// would report a collision one tick early.
    pub fn overlap_tail(&self, pos: &Block) -> (r: bool)
        requires
            self.wf(),
        ensures
            r == self.body@.drop_last().contains(*pos),
    {
        let n = self.body.len();
        let mut i: usize = 0;
        while i + 1 < n
            invariant
                n == self.body@.len(),
                1 <= n,
                i + 1 <= n,
                forall|j: int| 0 <= j < i ==> self.body@[j] != *pos,
            decreases n - i,
        {
            if self.body[i] == *pos {
                proof {
                    assert(self.body@.drop_last()[i as int] == *pos);
                }
                return true;
            }
            i += 1;
        }
        proof {
            assert(!self.body@.drop_last().contains(*pos)) by {
                assert(forall|j: int|
                    0 <= j < self.body@.drop_last().len()
                        ==> self.body@.drop_last()[j] != *pos);
            }
        }
        false
    }

    /// True when `pos` lies on any body cell, the tail included.
    pub fn occupies(&self, pos: &Block) -> (r: bool)
        ensures
            r == self.body@.contains(*pos),
    {
        let n = self.body.len();
        let mut i: usize = 0;
        while i < n
            invariant
                n == self.body@.len(),
                i <= n,
                forall|j: int| 0 <= j < i ==> self.body@[j] != *pos,
            decreases n - i,
        {
            if self.body[i] == *pos {
                return true;
            }
            i += 1;
        }
        false
    }

    pub fn len(&self) -> (n: usize)
        ensures
            n == self.body@.len(),
    {
        self.body.len()
    }

    /// The body cells in order, head first, as a fresh vector.
    pub fn cells(&self) -> (v: Vec<Block>)
        ensures
            v@ == self.body@,
    {
        let n = self.body.len();
        let mut v: Vec<Block> = Vec::new();
        let mut i: usize = 0;
        while i < n
            invariant
                n == self.body@.len(),
                i <= n,
                v@ == self.body@.subrange(0, i as int),
            decreases n - i,
        {
            v.push(self.body[i]);
            i += 1;
            proof {
                assert(v@ =~= self.body@.subrange(0, i as int));
            }
        }
        proof {
            assert(v@ =~= self.body@);
        }
        v
    }
}

/// Advancing pushes the next head and drops the tail: the length is
/// unchanged and the front cell becomes the pushed one.
pub proof fn lemma_advance_shape(body: Seq<Block>, nh: Block)
    requires
        body.len() >= 1,
    ensures
        (seq![nh] + body.drop_last()).len() == body.len(),
        (seq![nh] + body.drop_last())[0] == nh,
{
}

/// Growing right after an advance restores the dropped cell: the body is
/// one cell longer than before the advance, its back cell is the
/// pre-advance tail, and as a whole it is the pre-advance body with the
/// new head in front.
pub proof fn lemma_grow_restores_tail(body: Seq<Block>, nh: Block)
    requires
        body.len() >= 1,
    ensures
        (seq![nh] + body.drop_last()).push(body.last()).len() == body.len() + 1,
        (seq![nh] + body.drop_last()).push(body.last()).last() == body.last(),
        (seq![nh] + body.drop_last()).push(body.last()) == seq![nh] + body,
{
    assert((seq![nh] + body.drop_last()).push(body.last()) =~= seq![nh] + body);
}

/// The overlap check never reports the tail cell of a snake whose cells
/// are pairwise distinct: the tail is excluded on purpose.
pub proof fn lemma_tail_not_counted(body: Seq<Block>)
    requires
        body.len() >= 1,
        forall|i: int, j: int| 0 <= i < j < body.len() ==> body[i] != body[j],
    ensures
        !body.drop_last().contains(body.last()),
{
    assert forall|j: int| 0 <= j < body.drop_last().len() implies body.drop_last()[j]
        != body.last() by {
        assert(body[j] != body[body.len() - 1]);
    }
}

/// A freshly spawned three-cell snake that keeps moving straight never
/// collides with itself: the next head cell lies outside the whole spawned
/// body, and the spawned body's own tail is not counted by the overlap
/// check either.
pub proof fn lemma_spawn_straight_no_overlap(x: u32, y: u32, d: Direction)
    requires
        2 <= x,
        2 <= y,
        x + 2 <= u32::MAX,
        y + 2 <= u32::MAX,
    ensures
        !spec_spawn_body(x, y, d).contains(spec_next_block(Block { x, y }, d)),
        !spec_spawn_body(x, y, d).drop_last().contains(spec_spawn_body(x, y, d).last()),
{
    let body = spec_spawn_body(x, y, d);
    let nh = spec_next_block(Block { x, y }, d);
    assert(body.len() == 3);
    assert(body[0] != nh && body[1] != nh && body[2] != nh);
    assert(!body.contains(nh)) by {
        assert(forall|j: int| 0 <= j < body.len() ==> body[j] != nh);
    }
    assert(body.drop_last().len() == 2);
    assert(body.drop_last()[0] == body[0] && body.drop_last()[1] == body[1]);
    assert(!body.drop_last().contains(body.last())) by {
        assert(forall|j: int|
            0 <= j < body.drop_last().len() ==> body.drop_last()[j] != body.last());
    }
}

} // verus!
