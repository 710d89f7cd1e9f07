//! Scanners for a single message field.
use vstd::prelude::*;

use core::convert::Infallible;
use core::marker::PhantomData;

use crate::decode_error::DecodeError;
use crate::scan::IntoScanOutput;
use crate::scan::encoding::Encoding;
use crate::scan::error::{ScanErr, ScanError};
use crate::scan::group::delimited::{GroupDelimitedImpl, GroupModel};
use crate::scan::group::stack::{GroupStack, StackModel};
use crate::scan::step_matches;
use crate::wire::numeric_field::NumericField;
use crate::wire::parse::{DelimitedView, LengthDelimited, LengthDelimitedImpl, NumericIter};
use crate::wire::wire_type::NumericWireType;

pub mod emit;
pub mod group;
pub mod map;
pub mod message;
pub mod no_op;
pub mod repeated;
pub mod save;
pub mod write;

pub use emit::{EmitRepeated, EmitScalar};
pub use group::Group;
pub use map::{MapEntry, MapEntryScanner, MapKey, ProtoMap};
pub use message::{EmptyIfMissing, Message, Present, Presence, ScanOptionalMessage, Scanner};
pub use no_op::NoOp;
pub use repeated::{
    Fold, RepeatStrategy, RepeatStrategyScanner, RepeatedFold, RepeatedSave, RepeatedScanner,
    RepeatedWriteCloned, SaveCloned, ScanRepeated, WriteCloned,
};
pub use save::Save;
pub use write::Write;

verus! {

/// Marker type for protobuf `repeated`.
pub struct Repeated<T: ?Sized>(PhantomData<T>, Infallible);

/// The value of type `E` that a numeric field holds: `WrongWireType` if the
/// field does not have `E`'s wire type, `VarintOutOfBounds` if the value does
/// not fit.
pub open spec fn spec_decode_field<E: Encoding>(value: NumericField) -> Result<E::Repr, ScanErr> {
    match <E::Wire as NumericWireType>::spec_from_value(value) {
        None => Err(ScanError::WrongWireType),
        Some(w) => match E::spec_decode(w) {
            None => Err(ScanError::VarintOutOfBounds),
            Some(v) => Ok(v),
        },
    }
}

/// Decodes the value of type `E` that a numeric field holds.
pub fn decode_field<E: Encoding>(value: NumericField) -> (r: Result<E::Repr, ScanErr>)
    ensures
        r == spec_decode_field::<E>(value),
{
    let wire = match <E::Wire as NumericWireType>::from_value(value) {
        Some(w) => w,
        None => return Err(ScanError::WrongWireType),
    };
    match E::decode(wire) {
        Ok(v) => Ok(v),
        Err(_) => Err(ScanError::VarintOutOfBounds),
    }
}

/// A copy of `v`.
pub fn copy_vec<T: Copy>(v: &Vec<T>) -> (r: Vec<T>)
    ensures
        r@ == v@,
{
    let mut r: Vec<T> = Vec::new();
    let mut i: usize = 0;
    while i < v.len()
        invariant
            i <= v.len(),
            r@ == v@.take(i as int),
        decreases v.len() - i,
    {
        r.push(v[i]);
        i = i + 1;
        assert(r@ =~= v@.take(i as int));
    }
    assert(v@.take(v.len() as int) =~= v@);
    r
}

/// A collection that decoded values are appended to.
///
/// `Model` is what the collection holds as seen in a specification.
pub trait PushTarget<T> {
    /// The abstract contents.
    type Model;

    /// The contents.
    spec fn model(&self) -> Self::Model;

    /// The contents after appending `v`.
    spec fn spec_push(m: Self::Model, v: T) -> Self::Model;

    /// Appends `v`.
    fn push_value(&mut self, v: T)
        ensures
            final(self).model() == Self::spec_push(old(self).model(), v),
    ;
}

impl<T> PushTarget<T> for Vec<T> {
    type Model = Seq<T>;

    open spec fn model(&self) -> Seq<T> {
        self@
    }

    open spec fn spec_push(m: Seq<T>, v: T) -> Seq<T> {
        m.push(v)
    }

    fn push_value(&mut self, v: T) {
        self.push(v);
    }
}

impl<'t, T> PushTarget<T> for &'t mut Vec<T> {
    type Model = Seq<T>;

    open spec fn model(&self) -> Seq<T> {
        (**self)@
    }

    open spec fn spec_push(m: Seq<T>, v: T) -> Seq<T> {
        m.push(v)
    }

    fn push_value(&mut self, v: T) {
        (**self).push(v);
    }
}

/// The contents `acc` followed by the values packed in `s`, decoded as `E`
/// and appended in order, or the first error: a value that does not decode
/// (or does not fit), or a value cut short.
pub open spec fn spec_extend_packed<E: Encoding, D: PushTarget<E::Repr>>(
    acc: D::Model,
    s: Seq<u8>,
) -> Result<D::Model, ScanErr>
    decreases s.len(),
{
    if s.len() == 0 {
        Ok(acc)
    } else {
        match <E::Wire as NumericWireType>::spec_read_from(s) {
            Ok((w, n)) => if 1 <= n <= s.len() {
                match E::spec_decode(w) {
                    Some(v) => spec_extend_packed::<E, D>(D::spec_push(acc, v), s.skip(n as int)),
                    None => Err(ScanError::VarintOutOfBounds),
                }
            } else {
                Ok(acc)
            },
            Err(e) => Err(ScanError::Decode(e)),
        }
    }
}

/// The contents `acc` followed by the values packed in `s` that decode before
/// the first one that does not: what is kept when decoding them fails.
pub open spec fn spec_extend_packed_prefix<E: Encoding, D: PushTarget<E::Repr>>(
    acc: D::Model,
    s: Seq<u8>,
) -> D::Model
    decreases s.len(),
{
    if s.len() == 0 {
        acc
    } else {
        match <E::Wire as NumericWireType>::spec_read_from(s) {
            Ok((w, n)) => if 1 <= n <= s.len() {
                match E::spec_decode(w) {
                    Some(v) => spec_extend_packed_prefix::<E, D>(D::spec_push(acc, v), s.skip(n as int)),
                    None => acc,
                }
            } else {
                acc
            },
            Err(e) => acc,
        }
    }
}

/// The effect of a packed field with contents `c` on the values `acc`: the
/// values packed in the bytes the input holds are appended, and where the
/// input ends before the declared length, the field fails with
/// `UnexpectedEnd` after them.
pub open spec fn spec_extend_packed_field<E: Encoding, D: PushTarget<E::Repr>>(
    acc: D::Model,
    c: DelimitedView,
) -> Result<D::Model, ScanErr> {
    match spec_extend_packed::<E, D>(acc, c.0) {
        Ok(m) => if c.0.len() < c.1 {
            Err(ScanError::Decode(DecodeError::UnexpectedEnd))
        } else {
            Ok(m)
        },
        Err(e) => Err(e),
    }
}

/// Where every value decodes, the values kept are all of them.
proof fn lemma_extend_packed_prefix_ok<E: Encoding, D: PushTarget<E::Repr>>(
    acc: D::Model,
    s: Seq<u8>,
)
    ensures
        spec_extend_packed::<E, D>(acc, s) matches Ok(m) ==> spec_extend_packed_prefix::<E, D>(
            acc,
            s,
        ) == m,
    decreases s.len(),
{
    if s.len() != 0 {
        if let Ok((w, n)) = <E::Wire as NumericWireType>::spec_read_from(s) {
            if 1 <= n <= s.len() {
                if let Some(v) = E::spec_decode(w) {
                    lemma_extend_packed_prefix_ok::<E, D>(D::spec_push(acc, v), s.skip(n as int));
                }
            }
        }
    }
}

/// Packed values accumulate: decoding them after the values `acc` gives
/// `acc` followed by what decoding them alone gives, and fails with the same
/// error where that fails.
pub proof fn lemma_extend_packed_appends<E: Encoding>(acc: Seq<E::Repr>, s: Seq<u8>)
    ensures
        match spec_extend_packed::<E, Vec<E::Repr>>(Seq::empty(), s) {
            Ok(vs) => spec_extend_packed::<E, Vec<E::Repr>>(acc, s) == Ok::<
                Seq<E::Repr>,
                ScanErr,
            >(acc + vs),
            Err(e) => spec_extend_packed::<E, Vec<E::Repr>>(acc, s) == Err::<Seq<E::Repr>, ScanErr>(
                e,
            ),
        },
    decreases s.len(),
{
    if s.len() == 0 {
        assert(acc + Seq::<E::Repr>::empty() =~= acc);
    } else {
        match <E::Wire as NumericWireType>::spec_read_from(s) {
            Ok((w, n)) => {
                if 1 <= n <= s.len() {
                    if let Some(v) = E::spec_decode(w) {
                        let rest = s.skip(n as int);
                        lemma_extend_packed_appends::<E>(acc.push(v), rest);
                        lemma_extend_packed_appends::<E>(Seq::empty().push(v), rest);
                        if let Ok(vs) = spec_extend_packed::<E, Vec<E::Repr>>(Seq::empty(), rest) {
                            assert(acc.push(v) + vs =~= acc + (Seq::empty().push(v) + vs));
                        }
                    }
                } else {
                    assert(acc + Seq::<E::Repr>::empty() =~= acc);
                }
            },
            Err(_) => {},
        }
    }
}

/// Decodes the values packed in the contents of `delimited` and appends them
/// to `out`.
pub fn extend_packed<'a, E: Encoding, D: PushTarget<E::Repr>>(
    out: &mut D,
    delimited: LengthDelimitedImpl<'a>,
) -> (r: Result<(), ScanErr>)
    ensures
        step_matches(spec_extend_packed_field::<E, D>(old(out).model(), delimited@), r, final(out).model()),
        r is Err ==> final(out).model() == spec_extend_packed_prefix::<E, D>(
            old(out).model(),
            delimited@.0,
        ),
{
    proof {
        lemma_extend_packed_prefix_ok::<E, D>(old(out).model(), delimited@.0);
    }
    let truncated = (delimited.available_len() as u64) < (delimited.len() as u64);
    let mut packed: NumericIter<'a, E::Wire> = delimited.into_packed();
    loop
        invariant
            spec_extend_packed::<E, D>(old(out).model(), delimited@.0) == spec_extend_packed::<E, D>(
                out.model(),
                packed.rest(),
            ),
            spec_extend_packed_prefix::<E, D>(old(out).model(), delimited@.0)
                == spec_extend_packed_prefix::<E, D>(out.model(), packed.rest()),
            truncated == (delimited@.0.len() < delimited@.1),
        decreases packed.rest().len(),
    {
        let ghost rest = packed.rest();
        proof {
            <E::Wire as NumericWireType>::lemma_read_progress(rest);
        }
        match packed.next() {
            None => {
                if truncated {
                    return Err(ScanError::Decode(DecodeError::UnexpectedEnd));
                }
                return Ok(());
            },
            Some(Err(e)) => return Err(ScanError::Decode(e)),
            Some(Ok(w)) => match E::decode(w) {
                Ok(v) => out.push_value(v),
                Err(_) => return Err(ScanError::VarintOutOfBounds),
            },
        }
    }
}

/// Implemented by a visitor for a fixed field number.
///
/// Each callback's effect is given by a spec function over the scanner's
/// abstract state: the new state, or the error that stops the scan.
pub trait OnScanField<'a>: IntoScanOutput {
    /// Effect of a numeric value.
    spec fn spec_field_numeric(st: Self::State, value: NumericField) -> Result<Self::State, ScanErr>;

    /// Effect of an SGROUP tag, given the group scan it may read from.
    spec fn spec_field_group(st: Self::State, g: GroupModel) -> Result<
        (Self::State, GroupModel),
        ScanErr,
    >;

    /// Effect of a length-delimited value with the given contents, given the
    /// group stack a nested scan uses.
    spec fn spec_field_delimited(st: Self::State, contents: DelimitedView, stack: StackModel) -> Result<
        (Self::State, StackModel),
        ScanErr,
    >;

    /// A group callback never lengthens the input still to be read.
    proof fn lemma_field_group_progress(st: Self::State, g: GroupModel)
        ensures
            Self::spec_field_group(st, g) matches Ok((_, g2)) ==> g2.input.len() <= g.input.len(),
    ;

    /// Called when a numeric tag is read.
    fn on_numeric(&mut self, value: NumericField) -> (r: Result<(), ScanErr>)
        ensures
            step_matches(Self::spec_field_numeric(old(self).state(), value), r, final(self).state()),
    ;

    /// Called when a SGROUP tag is read.
    fn on_group<G: GroupStack>(
        &mut self,
        group: &mut GroupDelimitedImpl<'a>,
        group_stack: &mut G,
    ) -> (r: Result<(), ScanErr>)
        ensures
            step_matches(
                Self::spec_field_group(old(self).state(), old(group).model(old(group_stack).model())),
                r,
                (final(self).state(), final(group).model(final(group_stack).model())),
            ),
    ;

    /// Called when a length-delimited tag is read.
    fn on_length_delimited<G: GroupStack>(
        &mut self,
        delimited: LengthDelimitedImpl<'a>,
        group_stack: &mut G,
    ) -> (r: Result<(), ScanErr>)
        ensures
            step_matches(
                Self::spec_field_delimited(old(self).state(), delimited@, old(group_stack).model()),
                r,
                (final(self).state(), final(group_stack).model()),
            ),
    ;
}

} // verus!
