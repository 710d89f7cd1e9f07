//! Stacks of open groups.
use vstd::prelude::*;

verus! {

/// Error returned when a [`GroupStack`] implementation runs out of room.
#[derive(Copy, Clone, Debug, PartialEq, Eq, Structural)]
pub struct GroupStackCapacity;

/// Error returned when an SGROUP or EGROUP tag is found to not have a
/// corresponding partner.
#[derive(Copy, Clone, Debug, PartialEq, Eq, Structural)]
pub struct WrongGroupId;

/// A group stack as seen in a specification: the field numbers of the open
/// groups, innermost last, and how many it can hold (`None` for no limit).
pub struct StackModel {
    pub items: Seq<u32>,
    pub capacity: Option<nat>,
}

/// The stack after pushing `field`, or `None` when it is full.
pub open spec fn spec_push(m: StackModel, field: u32) -> Option<StackModel> {
    match m.capacity {
        Some(c) if m.items.len() >= c => None,
        _ => Some(StackModel { items: m.items.push(field), capacity: m.capacity }),
    }
}

/// The stack after popping, and whether the popped field number was `field`
/// (an empty stack stays as it is and does not match).
pub open spec fn spec_pop(m: StackModel, field: u32) -> (StackModel, bool) {
    if m.items.len() == 0 {
        (m, false)
    } else {
        (
            StackModel { items: m.items.drop_last(), capacity: m.capacity },
            m.items.last() == field,
        )
    }
}

/// A stack of field numbers corresponding to open groups.
///
/// Each SGROUP tag encountered begins a new group, identified by the field
/// number for the tag. The group is ended by a corresponding EGROUP tag with
/// the same field number. Per the protobuf specification, corresponding start
/// and end tags must be correctly nested for a protobuf wire format to be
/// valid.
pub trait GroupStack: Sized {
    /// The open groups and the capacity.
    spec fn model(&self) -> StackModel;

    /// Pushes a new field number onto the stack if there is space.
    fn push(&mut self, field_number: u32) -> (r: Result<(), GroupStackCapacity>)
        ensures
            match spec_push(old(self).model(), field_number) {
                Some(m) => r is Ok && final(self).model() == m,
                None => r is Err && final(self).model() == old(self).model(),
            },
    ;

    /// Pops the last field number on the stack and returns an error if it
    /// doesn't match the argument.
    fn pop(&mut self, field_number: u32) -> (r: Result<(), WrongGroupId>)
        ensures
            (final(self).model(), r is Ok) == spec_pop(old(self).model(), field_number),
    ;
}

/// No room for any group: every SGROUP fails.
impl GroupStack for () {
    open spec fn model(&self) -> StackModel {
        StackModel { items: Seq::empty(), capacity: Some(0) }
    }

    fn push(&mut self, _field_number: u32) -> (r: Result<(), GroupStackCapacity>) {
        Err(GroupStackCapacity)
    }

    fn pop(&mut self, _field_number: u32) -> (r: Result<(), WrongGroupId>) {
        Err(WrongGroupId)
    }
}

/// A growable stack with no limit on the nesting depth.
impl GroupStack for Vec<u32> {
    open spec fn model(&self) -> StackModel {
        StackModel { items: self@, capacity: None }
    }

    fn push(&mut self, field_number: u32) -> (r: Result<(), GroupStackCapacity>) {
        Vec::push(self, field_number);
        Ok(())
    }

    fn pop(&mut self, field_number: u32) -> (r: Result<(), WrongGroupId>) {
        match Vec::pop(self) {
            Some(f) => if f == field_number {
                Ok(())
            } else {
                Err(WrongGroupId)
            },
            None => Err(WrongGroupId),
        }
    }
}

#[verifier::external_type_specification]
#[verifier::external_body]
#[verifier::reject_recursive_types(T)]
pub struct ExArrayVec<T, const CAP: usize>(arrayvec::ArrayVec<T, CAP>);

/// The field numbers held by a one-slot `ArrayVec`, first pushed first.
pub uninterp spec fn single_slot_contents(v: arrayvec::ArrayVec<u32, 1>) -> Seq<u32>;

/// Calls `arrayvec::ArrayVec::new`.
///
/// Trusted: arrayvec's source makes a vector of length zero.
#[verifier::external_body]
fn single_slot_new() -> (r: arrayvec::ArrayVec<u32, 1>)
    ensures
        single_slot_contents(r) == Seq::<u32>::empty(),
{
    arrayvec::ArrayVec::new()
}

/// A new, empty group stack with room for one open group.
pub fn single_slot_stack() -> (r: arrayvec::ArrayVec<u32, 1>)
    ensures
        r.model() == (StackModel { items: Seq::empty(), capacity: Some(1) }),
{
    single_slot_new()
}

/// Calls `arrayvec::ArrayVec::try_push`.
///
/// Trusted: arrayvec's source pushes the element and returns `Ok` exactly
/// when the length is below the capacity, and otherwise returns an error and
/// leaves the vector as it was.
#[verifier::external_body]
fn single_slot_try_push(v: &mut arrayvec::ArrayVec<u32, 1>, x: u32) -> (r: bool)
    ensures
        r == (single_slot_contents(*old(v)).len() < 1),
        r ==> single_slot_contents(*final(v)) == single_slot_contents(*old(v)).push(x),
        !r ==> single_slot_contents(*final(v)) == single_slot_contents(*old(v)),
{
    v.try_push(x).is_ok()
}

/// Calls `arrayvec::ArrayVec::pop`.
///
/// Trusted: arrayvec's source returns `None` and changes nothing on an
/// empty vector, and otherwise removes and returns the last element.
#[verifier::external_body]
fn single_slot_pop(v: &mut arrayvec::ArrayVec<u32, 1>) -> (r: Option<u32>)
    ensures
        single_slot_contents(*old(v)).len() == 0 ==> r is None && single_slot_contents(*final(v))
            == single_slot_contents(*old(v)),
        single_slot_contents(*old(v)).len() > 0 ==> r == Some(single_slot_contents(*old(v)).last())
            && single_slot_contents(*final(v)) == single_slot_contents(*old(v)).drop_last(),
{
    v.pop()
}

/// A stack with room for a single open group.
impl GroupStack for arrayvec::ArrayVec<u32, 1> {
    open spec fn model(&self) -> StackModel {
        StackModel { items: single_slot_contents(*self), capacity: Some(1) }
    }

    fn push(&mut self, field_number: u32) -> (r: Result<(), GroupStackCapacity>) {
        if single_slot_try_push(self, field_number) {
            Ok(())
        } else {
            Err(GroupStackCapacity)
        }
    }

    fn pop(&mut self, field_number: u32) -> (r: Result<(), WrongGroupId>) {
        match single_slot_pop(self) {
            Some(f) => if f == field_number {
                Ok(())
            } else {
                Err(WrongGroupId)
            },
            None => Err(WrongGroupId),
        }
    }
}

} // verus!
