//! Access to the contents of a proto2 group during a scan.
use vstd::prelude::*;

use crate::scan::error::{ScanErr, ScanError};
use crate::scan::group::stack::{GroupStack, StackModel, spec_pop, spec_push};
use crate::scan::{ScanCallbacks, step_matches};
use crate::wire::parse::{EventReader, GroupOp, ParseEvent, ParseEventReader, spec_next_event};

verus! {

/// The state of a group scan as seen in a specification: the input still to
/// be read, the bytes to skip before the next tag, how many groups are open,
/// and the group stack.
pub struct GroupModel {
    pub input: Seq<u8>,
    pub pending: nat,
    pub open_count: nat,
    pub stack: StackModel,
}

/// Reads and discards events until every open group is closed, keeping the
/// group stack in step with the SGROUP and EGROUP tags.
pub open spec fn spec_read_to_end(g: GroupModel) -> Result<GroupModel, ScanErr>
    decreases g.input.len(),
{
    if g.open_count == 0 {
        Ok(g)
    } else {
        match spec_next_event(g.input, g.pending) {
            None => Err(ScanError::GroupMismatch),
            Some(Err(e)) => Err(ScanError::Decode(e)),
            Some(Ok((f, ev, input2, pending2))) => {
                proof {
                    crate::wire::parse::lemma_next_event_progress(g.input, g.pending);
                }
                match ev {
                    ParseEvent::Group(GroupOp::Start) => match spec_push(g.stack, f) {
                        None => Err(ScanError::GroupOverflow),
                        Some(stack2) => if g.open_count >= usize::MAX {
                            Err(ScanError::GroupOverflow)
                        } else {
                            spec_read_to_end(
                                GroupModel {
                                    input: input2,
                                    pending: pending2,
                                    open_count: g.open_count + 1,
                                    stack: stack2,
                                },
                            )
                        },
                    },
                    ParseEvent::Group(GroupOp::End) => {
                        let (stack2, matched) = spec_pop(g.stack, f);
                        if !matched {
                            Err(ScanError::GroupMismatch)
                        } else {
                            spec_read_to_end(
                                GroupModel {
                                    input: input2,
                                    pending: pending2,
                                    open_count: (g.open_count - 1) as nat,
                                    stack: stack2,
                                },
                            )
                        }
                    },
                    _ => spec_read_to_end(
                        GroupModel {
                            input: input2,
                            pending: pending2,
                            open_count: g.open_count,
                            stack: g.stack,
                        },
                    ),
                }
            },
        }
    }
}

/// Reading to the end of the groups never lengthens the input.
pub proof fn lemma_read_to_end_progress(g: GroupModel)
    ensures
        spec_read_to_end(g) matches Ok(g2) ==> g2.input.len() <= g.input.len(),
    decreases g.input.len(),
{
    if g.open_count != 0 {
        crate::wire::parse::lemma_next_event_progress(g.input, g.pending);
        if let Some(Ok((f, ev, input2, pending2))) = spec_next_event(g.input, g.pending) {
            match ev {
                ParseEvent::Group(GroupOp::Start) => {
                    if let Some(stack2) = spec_push(g.stack, f) {
                        if g.open_count < usize::MAX {
                            lemma_read_to_end_progress(
                                GroupModel {
                                    input: input2,
                                    pending: pending2,
                                    open_count: g.open_count + 1,
                                    stack: stack2,
                                },
                            );
                        }
                    }
                },
                ParseEvent::Group(GroupOp::End) => {
                    let (stack2, matched) = spec_pop(g.stack, f);
                    lemma_read_to_end_progress(
                        GroupModel {
                            input: input2,
                            pending: pending2,
                            open_count: (g.open_count - 1) as nat,
                            stack: stack2,
                        },
                    );
                },
                _ => {
                    lemma_read_to_end_progress(
                        GroupModel {
                            input: input2,
                            pending: pending2,
                            open_count: g.open_count,
                            stack: g.stack,
                        },
                    );
                },
            }
        }
    }
}

/// Reading to the end of the open groups closes exactly those groups: when it
/// succeeds, no group is open and the stack is what it was below them.
pub proof fn lemma_read_to_end_balance(g: GroupModel)
    requires
        g.open_count <= g.stack.items.len(),
    ensures
        spec_read_to_end(g) matches Ok(g2) ==> g2.open_count == 0 && g2.stack.capacity
            == g.stack.capacity && g2.stack.items == g.stack.items.take(
            g.stack.items.len() - g.open_count,
        ),
    decreases g.input.len(),
{
    if g.open_count == 0 {
        assert(g.stack.items.take(g.stack.items.len() as int) =~= g.stack.items);
    } else {
        crate::wire::parse::lemma_next_event_progress(g.input, g.pending);
        if let Some(Ok((f, ev, input2, pending2))) = spec_next_event(g.input, g.pending) {
            let len = g.stack.items.len();
            match ev {
                ParseEvent::Group(GroupOp::Start) => {
                    if let Some(stack2) = spec_push(g.stack, f) {
                        if g.open_count < usize::MAX {
                            let g2 = GroupModel {
                                input: input2,
                                pending: pending2,
                                open_count: g.open_count + 1,
                                stack: stack2,
                            };
                            lemma_read_to_end_balance(g2);
                            assert(stack2.items.take(stack2.items.len() - g2.open_count)
                                =~= g.stack.items.take(len - g.open_count));
                        }
                    }
                },
                ParseEvent::Group(GroupOp::End) => {
                    let (stack2, matched) = spec_pop(g.stack, f);
                    if matched {
                        let g2 = GroupModel {
                            input: input2,
                            pending: pending2,
                            open_count: (g.open_count - 1) as nat,
                            stack: stack2,
                        };
                        lemma_read_to_end_balance(g2);
                        assert(stack2.items.take(stack2.items.len() - g2.open_count)
                            =~= g.stack.items.take(len - g.open_count));
                    }
                },
                _ => {
                    lemma_read_to_end_balance(
                        GroupModel {
                            input: input2,
                            pending: pending2,
                            open_count: g.open_count,
                            stack: g.stack,
                        },
                    );
                },
            }
        }
    }
}

/// Scans a group whose SGROUP tag for `field` was just read: opens the
/// group, hands it to the scanner's group callback, then reads whatever the
/// callback left until the group is closed.
pub open spec fn spec_scan_through<'a, S: ScanCallbacks<'a>>(
    st: S::State,
    field: u32,
    g: GroupModel,
) -> Result<(S::State, GroupModel), ScanErr> {
    match spec_push(g.stack, field) {
        None => Err(ScanError::GroupOverflow),
        Some(stack2) => if g.open_count >= usize::MAX {
            Err(ScanError::GroupOverflow)
        } else {
            let g1 = GroupModel {
                input: g.input,
                pending: g.pending,
                open_count: g.open_count + 1,
                stack: stack2,
            };
            match S::spec_on_group(st, field, g1) {
                Err(e) => Err(e),
                Ok((st2, g2)) => match spec_read_to_end(g2) {
                    Ok(g3) => Ok((st2, g3)),
                    Err(e) => Err(e),
                },
            }
        },
    }
}

/// Scanning through a group never lengthens the input.
pub proof fn lemma_scan_through_progress<'a, S: ScanCallbacks<'a>>(
    st: S::State,
    field: u32,
    g: GroupModel,
)
    ensures
        spec_scan_through::<S>(st, field, g) matches Ok((_, g2)) ==> g2.input.len()
            <= g.input.len(),
{
    if let Some(stack2) = spec_push(g.stack, field) {
        if g.open_count < usize::MAX {
            let g1 = GroupModel {
                input: g.input,
                pending: g.pending,
                open_count: g.open_count + 1,
                stack: stack2,
            };
            S::lemma_on_group_progress(st, field, g1);
            if let Ok((st2, g2)) = S::spec_on_group(st, field, g1) {
                lemma_read_to_end_progress(g2);
            }
        }
    }
}

/// Scans the contents of the open groups with `S` until they are all closed.
///
/// Numeric and length-delimited fields go to the scanner. A nested SGROUP is
/// scanned through with the scanner's group callback, up to its own EGROUP,
/// and the scan goes on after it.
pub open spec fn spec_group_scan_with<'a, S: ScanCallbacks<'a>>(
    st: S::State,
    g: GroupModel,
) -> Result<(S::State, GroupModel), ScanErr>
    decreases g.input.len(),
{
    if g.open_count == 0 {
        Ok((st, g))
    } else {
        match spec_next_event(g.input, g.pending) {
            None => Err(ScanError::GroupMismatch),
            Some(Err(e)) => Err(ScanError::Decode(e)),
            Some(Ok((f, ev, input2, pending2))) => {
                proof {
                    crate::wire::parse::lemma_next_event_progress(g.input, g.pending);
                }
                let g2 = GroupModel {
                    input: input2,
                    pending: pending2,
                    open_count: g.open_count,
                    stack: g.stack,
                };
                match ev {
                    ParseEvent::Group(GroupOp::End) => {
                        let (stack2, matched) = spec_pop(g.stack, f);
                        if !matched {
                            Err(ScanError::GroupMismatch)
                        } else {
                            spec_group_scan_with::<S>(
                                st,
                                GroupModel {
                                    input: input2,
                                    pending: pending2,
                                    open_count: (g.open_count - 1) as nat,
                                    stack: stack2,
                                },
                            )
                        }
                    },
                    ParseEvent::Group(GroupOp::Start) => {
                        let nested = GroupModel {
                            input: input2,
                            pending: pending2,
                            open_count: 0,
                            stack: g.stack,
                        };
                        match spec_scan_through::<S>(st, f, nested) {
                            Ok((st2, g3)) => {
                                proof {
                                    lemma_scan_through_progress::<S>(st, f, nested);
                                }
                                spec_group_scan_with::<S>(
                                    st2,
                                    GroupModel {
                                        input: g3.input,
                                        pending: g3.pending,
                                        open_count: g.open_count,
                                        stack: g3.stack,
                                    },
                                )
                            },
                            Err(e) => Err(e),
                        }
                    },
                    ParseEvent::Numeric(v) => match S::spec_on_numeric(st, f, v) {
                        Ok(st2) => spec_group_scan_with::<S>(st2, g2),
                        Err(e) => Err(e),
                    },
                    ParseEvent::LengthDelimited(c) => match S::spec_on_length_delimited(
                        st,
                        f,
                        c,
                        g.stack,
                    ) {
                        Ok((st2, stack2)) => spec_group_scan_with::<S>(
                            st2,
                            GroupModel {
                                input: input2,
                                pending: pending2,
                                open_count: g.open_count,
                                stack: stack2,
                            },
                        ),
                        Err(e) => Err(e),
                    },
                }
            },
        }
    }
}

/// Scanning the contents of a group never lengthens the input.
pub proof fn lemma_group_scan_with_progress<'a, S: ScanCallbacks<'a>>(st: S::State, g: GroupModel)
    ensures
        spec_group_scan_with::<S>(st, g) matches Ok((_, g2)) ==> g2.input.len() <= g.input.len(),
    decreases g.input.len(),
{
    if g.open_count != 0 {
        crate::wire::parse::lemma_next_event_progress(g.input, g.pending);
        if let Some(Ok((f, ev, input2, pending2))) = spec_next_event(g.input, g.pending) {
            let g2 = GroupModel {
                input: input2,
                pending: pending2,
                open_count: g.open_count,
                stack: g.stack,
            };
            match ev {
                ParseEvent::Group(GroupOp::End) => {
                    let (stack2, matched) = spec_pop(g.stack, f);
                    lemma_group_scan_with_progress::<S>(
                        st,
                        GroupModel {
                            input: input2,
                            pending: pending2,
                            open_count: (g.open_count - 1) as nat,
                            stack: stack2,
                        },
                    );
                },
                ParseEvent::Group(GroupOp::Start) => {
                    let nested = GroupModel {
                        input: input2,
                        pending: pending2,
                        open_count: 0,
                        stack: g.stack,
                    };
                    lemma_scan_through_progress::<S>(st, f, nested);
                    if let Ok((st2, g3)) = spec_scan_through::<S>(st, f, nested) {
                        lemma_group_scan_with_progress::<S>(
                            st2,
                            GroupModel {
                                input: g3.input,
                                pending: g3.pending,
                                open_count: g.open_count,
                                stack: g3.stack,
                            },
                        );
                    }
                },
                ParseEvent::Numeric(v) => {
                    if let Ok(st2) = S::spec_on_numeric(st, f, v) {
                        lemma_group_scan_with_progress::<S>(st2, g2);
                    }
                },
                ParseEvent::LengthDelimited(c) => {
                    if let Ok((st2, stack2)) = S::spec_on_length_delimited(st, f, c, g.stack) {
                        lemma_group_scan_with_progress::<S>(
                            st2,
                            GroupModel {
                                input: input2,
                                pending: pending2,
                                open_count: g.open_count,
                                stack: stack2,
                            },
                        );
                    }
                },
            }
        }
    }
}

/// An accessor for the contents of a proto2 group.
pub trait GroupDelimited<'a> {
    /// The state of the group scan, with the group stack `stack`.
    spec fn group_model(&self, stack: StackModel) -> GroupModel;

    /// Scans the contents of the group through the provided scanner.
    ///
    /// Passes the contents of the group to the provided scanner until the end
    /// tag for the group is read (the end tag is not passed to the scanner).
    fn scan_with<S: ScanCallbacks<'a>, G: GroupStack>(
        &mut self,
        scanner: &mut S,
        group_stack: &mut G,
    ) -> (r: Result<(), ScanErr>)
        ensures
            step_matches(
                spec_group_scan_with::<S>(
                    old(scanner).state(),
                    old(self).group_model(old(group_stack).model()),
                ),
                r,
                (final(scanner).state(), final(self).group_model(final(group_stack).model())),
            ),
    ;
}

impl<'a> GroupDelimited<'a> for GroupDelimitedImpl<'a> {
    open spec fn group_model(&self, stack: StackModel) -> GroupModel {
        self.model(stack)
    }

    fn scan_with<S: ScanCallbacks<'a>, G: GroupStack>(
        &mut self,
        scanner: &mut S,
        group_stack: &mut G,
    ) -> (r: Result<(), ScanErr>) {
        GroupDelimitedImpl::scan_with(self, scanner, group_stack)
    }
}

/// The contents of one or more open proto2 groups, read from the message's
/// event reader.
pub struct GroupDelimitedImpl<'a> {
    parse: EventReader<'a>,
    open_count: usize,
}

impl<'a> GroupDelimitedImpl<'a> {
    /// The input still to be read.
    pub closed spec fn input(&self) -> Seq<u8> {
        self.parse.input()
    }

    /// The bytes to skip before the next tag.
    pub closed spec fn pending(&self) -> nat {
        self.parse.pending()
    }

    /// How many groups are open.
    pub closed spec fn open_count(&self) -> nat {
        self.open_count as nat
    }

    /// The group scan's state together with the group stack `stack`.
    pub open spec fn model(&self, stack: StackModel) -> GroupModel {
        GroupModel {
            input: self.input(),
            pending: self.pending(),
            open_count: self.open_count(),
            stack,
        }
    }

    /// Starts a group scan with no group open.
    pub(crate) fn new(parse: EventReader<'a>) -> (r: Self)
        ensures
            r.input() == parse.input(),
            r.pending() == parse.pending(),
            r.open_count() == 0,
    {
        Self { parse, open_count: 0 }
    }

    /// The event reader, positioned after what the group scan read.
    pub(crate) fn into_parse(self) -> (r: EventReader<'a>)
        ensures
            r.input() == self.input(),
            r.pending() == self.pending(),
    {
        self.parse
    }

    /// Opens the group whose SGROUP tag for `field_number` was just read,
    /// hands it to the scanner's group callback, then reads to its end.
    pub(crate) fn scan_through_mut<S: ScanCallbacks<'a>, G: GroupStack>(
        &mut self,
        scanner: &mut S,
        field_number: u32,
        group_stack: &mut G,
    ) -> (r: Result<(), ScanErr>)
        ensures
            step_matches(
                spec_scan_through::<S>(
                    old(scanner).state(),
                    field_number,
                    old(self).model(old(group_stack).model()),
                ),
                r,
                (final(scanner).state(), final(self).model(final(group_stack).model())),
            ),
    {
        match group_stack.push(field_number) {
            Ok(()) => {},
            Err(_) => return Err(ScanError::GroupOverflow),
        }
        if self.open_count == usize::MAX {
            return Err(ScanError::GroupOverflow);
        }
        self.open_count = self.open_count + 1;
        match scanner.on_group(field_number, self, group_stack) {
            Ok(()) => {},
            Err(e) => return Err(e),
        }
        self.read_to_end(group_stack)
    }

    /// Reads and discards events until every open group is closed.
    fn read_to_end<G: GroupStack>(&mut self, group_stack: &mut G) -> (r: Result<(), ScanErr>)
        ensures
            step_matches(
                spec_read_to_end(old(self).model(old(group_stack).model())),
                r,
                final(self).model(final(group_stack).model()),
            ),
    {
        while self.open_count != 0
            invariant
                spec_read_to_end(old(self).model(old(group_stack).model())) == spec_read_to_end(
                    self.model(group_stack.model()),
                ),
            decreases self.input().len(),
        {
            let ghost g = self.model(group_stack.model());
            let ghost input0 = self.parse.input();
            let ghost pending0 = self.parse.pending();
            let next = self.parse.next();
            proof {
                crate::wire::parse::lemma_next_event_spec(
                    input0,
                    pending0,
                    self.parse.input(),
                    self.parse.pending(),
                    next,
                );
                crate::wire::parse::lemma_next_event_progress(input0, pending0);
            }
            let (field_number, event) = match next {
                None => return Err(ScanError::GroupMismatch),
                Some(Err(e)) => return Err(ScanError::Decode(e)),
                Some(Ok(fe)) => fe,
            };
            match event {
                ParseEvent::Group(op) => match op {
                    GroupOp::Start => {
                        match group_stack.push(field_number) {
                            Ok(()) => {},
                            Err(_) => return Err(ScanError::GroupOverflow),
                        }
                        if self.open_count == usize::MAX {
                            return Err(ScanError::GroupOverflow);
                        }
                        self.open_count = self.open_count + 1;
                    },
                    GroupOp::End => {
                        self.open_count = self.open_count - 1;
                        match group_stack.pop(field_number) {
                            Ok(()) => {},
                            Err(_) => return Err(ScanError::GroupMismatch),
                        }
                    },
                },
                ParseEvent::Numeric(_) => {},
                ParseEvent::LengthDelimited(_) => {},
            }
        }
        Ok(())
    }

    /// Scans the contents of the group through the provided scanner.
    ///
    /// Passes the contents of the group to the provided scanner until the end
    /// tag for the group is read (the end tag is not passed to the scanner).
    pub fn scan_with<S: ScanCallbacks<'a>, G: GroupStack>(
        &mut self,
        scanner: &mut S,
        group_stack: &mut G,
    ) -> (r: Result<(), ScanErr>)
        ensures
            step_matches(
                spec_group_scan_with::<S>(
                    old(scanner).state(),
                    old(self).model(old(group_stack).model()),
                ),
                r,
                (final(scanner).state(), final(self).model(final(group_stack).model())),
            ),
    {
        while self.open_count != 0
            invariant
                spec_group_scan_with::<S>(
                    old(scanner).state(),
                    old(self).model(old(group_stack).model()),
                ) == spec_group_scan_with::<S>(scanner.state(), self.model(group_stack.model())),
            decreases self.input().len(),
        {
            let ghost input0 = self.parse.input();
            let ghost pending0 = self.parse.pending();
            let next = self.parse.next();
            proof {
                crate::wire::parse::lemma_next_event_spec(
                    input0,
                    pending0,
                    self.parse.input(),
                    self.parse.pending(),
                    next,
                );
                crate::wire::parse::lemma_next_event_progress(input0, pending0);
            }
            let (field_number, event) = match next {
                None => return Err(ScanError::GroupMismatch),
                Some(Err(e)) => return Err(ScanError::Decode(e)),
                Some(Ok(fe)) => fe,
            };
            match event {
                ParseEvent::Group(op) => match op {
                    GroupOp::End => {
                        self.open_count = self.open_count - 1;
                        match group_stack.pop(field_number) {
                            Ok(()) => {},
                            Err(_) => return Err(ScanError::GroupMismatch),
                        }
                    },
                    GroupOp::Start => {
                        let ghost st0 = scanner.state();
                        let ghost nested_model = GroupModel {
                            input: self.parse.input(),
                            pending: self.parse.pending(),
                            open_count: 0,
                            stack: group_stack.model(),
                        };
                        let mut nested = GroupDelimitedImpl::new(self.parse);
                        match nested.scan_through_mut(scanner, field_number, group_stack) {
                            Ok(()) => {},
                            Err(e) => return Err(e),
                        }
                        proof {
                            lemma_scan_through_progress::<S>(st0, field_number, nested_model);
                        }
                        self.parse = nested.into_parse();
                    },
                },
                ParseEvent::Numeric(value) => {
                    match scanner.on_numeric(field_number, value) {
                        Ok(()) => {},
                        Err(e) => return Err(e),
                    }
                },
                ParseEvent::LengthDelimited(delimited) => {
                    match scanner.on_length_delimited(field_number, delimited, group_stack) {
                        Ok(()) => {},
                        Err(e) => return Err(e),
                    }
                },
            }
        }
        Ok(())
    }
}

} // verus!
