//! Repeated embedded message fields.
use vstd::prelude::*;

use core::marker::PhantomData;

use crate::scan::delimited::{ScanDelimited, spec_scan_delimited};
use crate::scan::error::{ScanErr, ScanError};
use crate::scan::field::{OnScanField, PushTarget, Repeated};
use crate::scan::group::delimited::{GroupDelimitedImpl, GroupModel};
use crate::scan::group::stack::{GroupStack, StackModel};
use crate::scan::{
    CloneScanner, IntoScanOutput, IntoScanner, MessageScanner, ScanCallbacks, step_matches,
};
use crate::wire::numeric_field::NumericField;
use crate::wire::parse::{DelimitedView, LengthDelimitedImpl};

verus! {

/// A strategy for handling repeated messages for message scanner `M`.
pub trait RepeatStrategy<'a, M> {
    /// The scanner that carries out the strategy.
    type Impl: IntoScanOutput;

    /// The state of that scanner.
    spec fn spec_impl(&self) -> <Self::Impl as IntoScanOutput>::State;

    /// Produces that scanner.
    fn into_impl(self) -> (r: Self::Impl)
        ensures
            r.state() == self.spec_impl(),
    ;
}

/// The instantiation of a [`RepeatStrategy`] policy: what to do with each
/// occurrence of a repeated message, given a fresh message scanner.
pub trait RepeatStrategyScanner<'a, S: ScanCallbacks<'a>>: IntoScanOutput {
    /// Effect of one occurrence with the given contents, where `scanner` is
    /// the state of the fresh message scanner.
    spec fn spec_on_message(
        st: Self::State,
        scanner: S::State,
        contents: DelimitedView,
        stack: StackModel,
    ) -> Result<(Self::State, StackModel), ScanErr>;

    /// Handles one occurrence of the repeated message.
    fn on_message<G: GroupStack>(
        &mut self,
        scanner: &S,
        input: LengthDelimitedImpl<'a>,
        group_stack: &mut G,
    ) -> (r: Result<(), ScanErr>)
        ensures
            step_matches(
                Self::spec_on_message(old(self).state(), scanner.state(), input@, old(group_stack).model()),
                r,
                (final(self).state(), final(group_stack).model()),
            ),
    ;
}

/// Extension trait for message scanners.
///
/// This adds a `repeat_by` method for transforming a message scanner into a
/// scanner for a repeated message field.
///
/// This trait is blanket-implemented for all [`MessageScanner`]s.
pub trait ScanRepeated: MessageScanner + Sized {
    /// Scans a repeated field of this message with `strategy`.
    fn repeat_by<F>(self, strategy: F) -> (r: RepeatedScanner<Self, F>)
        ensures
            r.message_scanner() == self,
            r.strategy() == strategy,
    ;
}

impl<M: MessageScanner + Sized> ScanRepeated for M {
    fn repeat_by<F>(self, strategy: F) -> (r: RepeatedScanner<Self, F>) {
        RepeatedScanner(self, strategy)
    }
}

/// Scanner for a repeated message field: holds a message scanner and a
/// [`RepeatStrategy`] and hands each occurrence to the strategy.
pub struct RepeatedScanner<S, F>(S, F);

impl<S, F> RepeatedScanner<S, F> {
    /// The message scanner.
    pub closed spec fn message_scanner(&self) -> S {
        self.0
    }

    /// The strategy.
    pub closed spec fn strategy(&self) -> F {
        self.1
    }
}

impl<
    'a,
    S: MessageScanner + IntoScanner<'a, <S as MessageScanner>::Message>,
    F: RepeatStrategy<'a, S>,
> IntoScanner<'a, Repeated<<S as MessageScanner>::Message>> for RepeatedScanner<S, F> {
    type Scanner = RepeatedScanner<<S as IntoScanner<'a, <S as MessageScanner>::Message>>::Scanner, F::Impl>;

    open spec fn spec_scanner(&self) -> (
        <<S as IntoScanner<'a, <S as MessageScanner>::Message>>::Scanner as IntoScanOutput>::State,
        <F::Impl as IntoScanOutput>::State,
    ) {
        (self.message_scanner().spec_scanner(), self.strategy().spec_impl())
    }

    fn into_scanner(self) -> (r: Self::Scanner) {
        let RepeatedScanner(s, f) = self;
        RepeatedScanner(s.into_scanner(), f.into_impl())
    }
}

impl<S: IntoScanOutput, F: IntoScanOutput> IntoScanOutput for RepeatedScanner<S, F> {
    type ScanOutput = F::ScanOutput;
    type State = (S::State, F::State);

    closed spec fn state(&self) -> (S::State, F::State) {
        (self.0.state(), self.1.state())
    }

    open spec fn output_matches(st: (S::State, F::State), out: F::ScanOutput) -> bool {
        F::output_matches(st.1, out)
    }

    fn into_scan_output(self) -> (r: F::ScanOutput) {
        self.1.into_scan_output()
    }
}

impl<'a, S: ScanCallbacks<'a>, F: RepeatStrategyScanner<'a, S>> OnScanField<'a> for RepeatedScanner<
    S,
    F,
> {
    open spec fn spec_field_numeric(st: (S::State, F::State), value: NumericField) -> Result<
        (S::State, F::State),
        ScanErr,
    > {
        Err(ScanError::WrongWireType)
    }

    open spec fn spec_field_group(st: (S::State, F::State), g: GroupModel) -> Result<
        ((S::State, F::State), GroupModel),
        ScanErr,
    > {
        Err(ScanError::WrongWireType)
    }

    open spec fn spec_field_delimited(
        st: (S::State, F::State),
        contents: DelimitedView,
        stack: StackModel,
    ) -> Result<((S::State, F::State), StackModel), ScanErr> {
        match F::spec_on_message(st.1, st.0, contents, stack) {
            Ok((f2, stack2)) => Ok(((st.0, f2), stack2)),
            Err(e) => Err(e),
        }
    }

    proof fn lemma_field_group_progress(st: (S::State, F::State), g: GroupModel) {
    }

    fn on_numeric(&mut self, _value: NumericField) -> (r: Result<(), ScanErr>) {
        Err(ScanError::WrongWireType)
    }

    fn on_group<G: GroupStack>(
        &mut self,
        _group: &mut GroupDelimitedImpl<'a>,
        _group_stack: &mut G,
    ) -> (r: Result<(), ScanErr>) {
        Err(ScanError::WrongWireType)
    }

    fn on_length_delimited<G: GroupStack>(
        &mut self,
        delimited: LengthDelimitedImpl<'a>,
        group_stack: &mut G,
    ) -> (r: Result<(), ScanErr>) {
        self.1.on_message(&self.0, delimited, group_stack)
    }
}

/// [`RepeatStrategy`] that scans each occurrence with a copy of the fresh
/// message scanner and saves the outputs in a [`Vec`], in order.
#[derive(Copy, Clone)]
pub struct SaveCloned;

/// Implementation of [`RepeatStrategyScanner`] for [`SaveCloned`]: keeps the
/// scanner of each occurrence and produces their outputs.
pub struct RepeatedSave<S>(Vec<S>);

/// The states of `scanners`, in order.
pub open spec fn states_of<S: IntoScanOutput>(scanners: Seq<S>) -> Seq<S::State> {
    scanners.map_values(|s: S| s.state())
}

impl<'a, M: MessageScanner + IntoScanner<'a, <M as MessageScanner>::Message>> RepeatStrategy<'a, M> for SaveCloned {
    type Impl = RepeatedSave<<M as IntoScanner<'a, <M as MessageScanner>::Message>>::Scanner>;

    open spec fn spec_impl(&self) -> Seq<
        <<M as IntoScanner<'a, <M as MessageScanner>::Message>>::Scanner as IntoScanOutput>::State,
    > {
        Seq::empty()
    }

    fn into_impl(self) -> (r: Self::Impl) {
        let r = RepeatedSave(Vec::new());
        assert(r.state() =~= Seq::<
            <<M as IntoScanner<'a, <M as MessageScanner>::Message>>::Scanner as IntoScanOutput>::State,
        >::empty());
        r
    }
}

impl<S: IntoScanOutput> IntoScanOutput for RepeatedSave<S> {
    type ScanOutput = Vec<S::ScanOutput>;
    type State = Seq<S::State>;

    closed spec fn state(&self) -> Seq<S::State> {
        states_of(self.0@)
    }

    open spec fn output_matches(st: Seq<S::State>, out: Vec<S::ScanOutput>) -> bool {
        &&& out@.len() == st.len()
        &&& forall|i: int| 0 <= i < st.len() ==> S::output_matches(st[i], #[trigger] out@[i])
    }

    fn into_scan_output(self) -> (r: Vec<S::ScanOutput>) {
        let ghost st = self.state();
        let mut scanners = self.0;
        let mut reversed: Vec<S> = Vec::new();
        while scanners.len() > 0
            invariant
                states_of(scanners@) + states_of(reversed@).reverse() == st,
            decreases scanners.len(),
        {
            let ghost before_s = scanners@;
            let ghost before_r = reversed@;
            let s = scanners.pop().unwrap();
            reversed.push(s);
            assert(states_of(scanners@) + states_of(reversed@).reverse() =~= states_of(before_s)
                + states_of(before_r).reverse());
        }
        assert(states_of(reversed@).reverse() =~= st);
        let mut outputs: Vec<S::ScanOutput> = Vec::new();
        while reversed.len() > 0
            invariant
                outputs@.len() + reversed@.len() == st.len(),
                states_of(reversed@).reverse() == st.skip(outputs@.len() as int),
                forall|i: int| 0 <= i < outputs@.len() ==> S::output_matches(st[i], #[trigger] outputs@[i]),
            decreases reversed.len(),
        {
            let ghost before_r = reversed@;
            let s = reversed.pop().unwrap();
            assert(s.state() == st[outputs@.len() as int]) by {
                assert(states_of(before_r).reverse()[0] == st.skip(outputs@.len() as int)[0]);
            }
            outputs.push(s.into_scan_output());
            let ghost k = outputs@.len() - 1;
            assert(states_of(reversed@) =~= states_of(before_r).drop_last());
            assert(states_of(reversed@).reverse() =~= states_of(before_r).reverse().skip(1));
            assert(st.skip(k).skip(1) =~= st.skip(k + 1));
        }
        outputs
    }
}

impl<'a, S: ScanCallbacks<'a> + CloneScanner> RepeatStrategyScanner<'a, S> for RepeatedSave<S> {
    open spec fn spec_on_message(
        st: Seq<S::State>,
        scanner: S::State,
        contents: DelimitedView,
        stack: StackModel,
    ) -> Result<(Seq<S::State>, StackModel), ScanErr> {
        match spec_scan_delimited::<S>(scanner, contents, stack) {
            Ok((s2, stack2)) => Ok((st.push(s2), stack2)),
            Err(e) => Err(e),
        }
    }

    fn on_message<G: GroupStack>(
        &mut self,
        scanner: &S,
        input: LengthDelimitedImpl<'a>,
        group_stack: &mut G,
    ) -> (r: Result<(), ScanErr>) {
        let mut scanner = scanner.clone_scanner();
        match input.scan_into(&mut scanner, group_stack) {
            Ok(()) => {},
            Err(e) => return Err(e),
        }
        let ghost before = self.0@;
        self.0.push(scanner);
        assert(states_of(self.0@) =~= states_of(before).push(scanner.state()));
        Ok(())
    }
}

/// The output of the scanners that builder `M` makes for its message.
pub type MessageOutput<'a, M> = <<M as IntoScanner<
    'a,
    <M as MessageScanner>::Message,
>>::Scanner as IntoScanOutput>::ScanOutput;

/// [`RepeatStrategy`] that folds message scanner outputs together: the first
/// occurrence's output is kept, and each later one is folded into it with
/// the function.
pub struct Fold<F: Fn(&mut T, T), T>(F, PhantomData<T>);

impl<F: Fn(&mut T, T), T> Fold<F, T> {
    /// The folding function can be called on any arguments.
    #[verifier::type_invariant]
    closed spec fn callable(&self) -> bool {
        forall|acc: &mut T, next: T| self.0.requires((acc, next))
    }

    /// Folds with `f`, which takes the output so far and the next one.
    pub fn new(f: F) -> (r: Self)
        requires
            forall|acc: &mut T, next: T| f.requires((acc, next)),
        ensures
            r.function() == f,
    {
        Fold(f, PhantomData)
    }

    /// The folding function.
    pub closed spec fn function(&self) -> F {
        self.0
    }

    /// Folds `next` into `acc` with the function.
    fn apply(&self, acc: &mut T, next: T)
        ensures
            exists|a: &mut T|
                *a == *old(acc) && *final(a) == *final(acc) && #[trigger] call_ensures(
                    self.0,
                    (a, next),
                    (),
                ),
    {
        proof {
            use_type_invariant(self);
        }
        (self.0)(acc, next);
    }
}

/// The folded output and the states of the message scanners of the
/// occurrences seen so far.
struct FoldAcc<S: IntoScanOutput> {
    acc: Option<S::ScanOutput>,
    seen: Ghost<Seq<S::State>>,
}

/// What the folded output `out` can be after occurrences whose scanners
/// ended in the states `seen`: nothing before the first occurrence, and the
/// first occurrence's output while it is the only one.
pub open spec fn fold_matches<S: IntoScanOutput>(seen: Seq<S::State>, out: Option<S::ScanOutput>) -> bool {
    &&& out is None <==> seen.len() == 0
    &&& seen.len() == 1 ==> (out matches Some(o) && S::output_matches(seen[0], o))
}

impl<S: IntoScanOutput> FoldAcc<S> {
    #[verifier::type_invariant]
    closed spec fn tracks(&self) -> bool {
        fold_matches::<S>(self.seen@, self.acc)
    }

    fn empty() -> (r: Self)
        ensures
            r.seen@ == Seq::<S::State>::empty(),
    {
        FoldAcc { acc: None, seen: Ghost(Seq::empty()) }
    }
}

/// Implementation of [`RepeatStrategyScanner`] for [`Fold`].
///
/// Each occurrence of the message is scanned with a copy of the fresh message
/// scanner. The first output is kept; each later one is folded into it.
pub struct RepeatedFold<S: IntoScanOutput, F: Fn(&mut S::ScanOutput, S::ScanOutput)> {
    acc: FoldAcc<S>,
    f: Fold<F, S::ScanOutput>,
}

impl<S: IntoScanOutput, F: Fn(&mut S::ScanOutput, S::ScanOutput)> RepeatedFold<S, F> {
    /// The folded output so far.
    pub closed spec fn folded(&self) -> Option<S::ScanOutput> {
        self.acc.acc
    }

    /// The folding function.
    pub closed spec fn function(&self) -> F {
        self.f.function()
    }
}

impl<
    'a,
    M: MessageScanner + IntoScanner<'a, <M as MessageScanner>::Message>,
    F: Fn(&mut MessageOutput<'a, M>, MessageOutput<'a, M>),
> RepeatStrategy<'a, M> for Fold<F, MessageOutput<'a, M>> {
    type Impl = RepeatedFold<<M as IntoScanner<'a, <M as MessageScanner>::Message>>::Scanner, F>;

    open spec fn spec_impl(&self) -> Seq<
        <<M as IntoScanner<'a, <M as MessageScanner>::Message>>::Scanner as IntoScanOutput>::State,
    > {
        Seq::empty()
    }

    fn into_impl(self) -> (r: Self::Impl) {
        RepeatedFold { acc: FoldAcc::empty(), f: self }
    }
}

impl<S: IntoScanOutput, F: Fn(&mut S::ScanOutput, S::ScanOutput)> IntoScanOutput for RepeatedFold<
    S,
    F,
> {
    type ScanOutput = Option<S::ScanOutput>;
    type State = Seq<S::State>;

    closed spec fn state(&self) -> Seq<S::State> {
        self.acc.seen@
    }

    open spec fn output_matches(st: Seq<S::State>, out: Option<S::ScanOutput>) -> bool {
        fold_matches::<S>(st, out)
    }

    fn into_scan_output(self) -> (r: Option<S::ScanOutput>)
        ensures
            r == self.folded(),
    {
        let RepeatedFold { acc, f: _ } = self;
        proof {
            use_type_invariant(&acc);
        }
        let FoldAcc { acc, seen: _ } = acc;
        acc
    }
}

impl<
    'a,
    S: ScanCallbacks<'a> + CloneScanner,
    F: Fn(&mut S::ScanOutput, S::ScanOutput),
> RepeatStrategyScanner<'a, S> for RepeatedFold<S, F> {
    open spec fn spec_on_message(
        st: Seq<S::State>,
        scanner: S::State,
        contents: DelimitedView,
        stack: StackModel,
    ) -> Result<(Seq<S::State>, StackModel), ScanErr> {
        match spec_scan_delimited::<S>(scanner, contents, stack) {
            Ok((s2, stack2)) => Ok((st.push(s2), stack2)),
            Err(e) => Err(e),
        }
    }

    /// The first occurrence's output is kept; each later one is folded into
    /// the output so far with the function.
    fn on_message<G: GroupStack>(
        &mut self,
        scanner: &S,
        input: LengthDelimitedImpl<'a>,
        group_stack: &mut G,
    ) -> (r: Result<(), ScanErr>)
        ensures
            final(self).function() == old(self).function(),
            r is Err ==> final(self).folded() == old(self).folded(),
            r is Ok ==> match old(self).folded() {
                None => (final(self).folded() matches Some(v) && S::output_matches(
                    final(self).state().last(),
                    v,
                )),
                Some(p) => (final(self).folded() matches Some(v) && exists|
                    a: &mut S::ScanOutput,
                    o: S::ScanOutput,
                |
                    *a == p && *final(a) == v && S::output_matches(final(self).state().last(), o)
                        && #[trigger] call_ensures(old(self).function(), (a, o), ())),
            },
    {
        let mut scanner = scanner.clone_scanner();
        match input.scan_into(&mut scanner, group_stack) {
            Ok(()) => {},
            Err(e) => return Err(e),
        }
        let ghost st2 = scanner.state();
        let out = scanner.into_scan_output();
        let mut taken = FoldAcc::empty();
        core::mem::swap(&mut self.acc, &mut taken);
        proof {
            use_type_invariant(&taken);
        }
        let FoldAcc { acc, seen } = taken;
        let folded = match acc {
            Some(mut prev) => {
                self.f.apply(&mut prev, out);
                prev
            },
            None => out,
        };
        self.acc = FoldAcc { acc: Some(folded), seen: Ghost(seen@.push(st2)) };
        Ok(())
    }
}

/// [`RepeatStrategy`] that scans each occurrence with a copy of the fresh
/// message scanner and appends its output to a destination.
pub struct WriteCloned<D>(pub D);

/// Implementation of [`RepeatStrategyScanner`] for [`WriteCloned`]: appends
/// the output of each occurrence to the destination, in order.
pub struct RepeatedWriteCloned<S: IntoScanOutput, D> {
    dest: D,
    seen: Ghost<Seq<S::State>>,
}

impl<S: IntoScanOutput, D> RepeatedWriteCloned<S, D> {
    /// The destination.
    pub closed spec fn destination(&self) -> D {
        self.dest
    }
}

impl<
    'a,
    M: MessageScanner + IntoScanner<'a, <M as MessageScanner>::Message>,
    D: PushTarget<MessageOutput<'a, M>>,
> RepeatStrategy<'a, M> for WriteCloned<D> {
    type Impl = RepeatedWriteCloned<
        <M as IntoScanner<'a, <M as MessageScanner>::Message>>::Scanner,
        D,
    >;

    open spec fn spec_impl(&self) -> Seq<
        <<M as IntoScanner<'a, <M as MessageScanner>::Message>>::Scanner as IntoScanOutput>::State,
    > {
        Seq::empty()
    }

    fn into_impl(self) -> (r: Self::Impl) {
        RepeatedWriteCloned { dest: self.0, seen: Ghost(Seq::empty()) }
    }
}

impl<S: IntoScanOutput, D> IntoScanOutput for RepeatedWriteCloned<S, D> {
    type ScanOutput = ();
    /// The states of the message scanners of the occurrences written, in
    /// order.
    type State = Seq<S::State>;

    closed spec fn state(&self) -> Seq<S::State> {
        self.seen@
    }

    open spec fn output_matches(st: Seq<S::State>, out: ()) -> bool {
        true
    }

    fn into_scan_output(self) {
    }
}

impl<
    'a,
    S: ScanCallbacks<'a> + CloneScanner,
    D: PushTarget<S::ScanOutput>,
> RepeatStrategyScanner<'a, S> for RepeatedWriteCloned<S, D> {
    open spec fn spec_on_message(
        st: Seq<S::State>,
        scanner: S::State,
        contents: DelimitedView,
        stack: StackModel,
    ) -> Result<(Seq<S::State>, StackModel), ScanErr> {
        match spec_scan_delimited::<S>(scanner, contents, stack) {
            Ok((s2, stack2)) => Ok((st.push(s2), stack2)),
            Err(e) => Err(e),
        }
    }

    /// The output appended is the one the occurrence's scanner produced.
    fn on_message<G: GroupStack>(
        &mut self,
        scanner: &S,
        input: LengthDelimitedImpl<'a>,
        group_stack: &mut G,
    ) -> (r: Result<(), ScanErr>)
        ensures
            r is Ok ==> exists|out: S::ScanOutput|
                S::output_matches(final(self).state().last(), out)
                    && final(self).destination().model() == D::spec_push(
                    old(self).destination().model(),
                    out,
                ),
            r is Err ==> final(self).destination().model() == old(self).destination().model(),
    {
        let mut scanner = scanner.clone_scanner();
        match input.scan_into(&mut scanner, group_stack) {
            Ok(()) => {},
            Err(e) => return Err(e),
        }
        let ghost st2 = scanner.state();
        let out = scanner.into_scan_output();
        let ghost o = out;
        self.dest.push_value(out);
        proof {
            self.seen@ = self.seen@.push(st2);
            assert(S::output_matches(self.seen@.last(), o));
        }
        Ok(())
    }
}

/// Each saved occurrence of a repeated message is the scan of its own
/// contents from the fresh message scanner, whatever occurrences came
/// before: the states saved before are kept, and the state added is what
/// scanning the contents from `fresh` gives; a failure is that scan's.
pub proof fn lemma_saved_occurrence_is_fresh_scan<'a, S: ScanCallbacks<'a> + CloneScanner>(
    st: Seq<S::State>,
    fresh: S::State,
    c: DelimitedView,
    stack: StackModel,
)
    ensures
        match <RepeatedSave<S> as RepeatStrategyScanner<'a, S>>::spec_on_message(st, fresh, c, stack) {
            Ok((st2, stack2)) => st2.len() == st.len() + 1 && st2.take(st.len() as int) == st
                && spec_scan_delimited::<S>(fresh, c, stack) == Ok::<
                (S::State, StackModel),
                ScanErr,
            >((st2.last(), stack2)),
            Err(e) => spec_scan_delimited::<S>(fresh, c, stack) == Err::<
                (S::State, StackModel),
                ScanErr,
            >(e),
        },
{
    if let Ok((s2, stack2)) = spec_scan_delimited::<S>(fresh, c, stack) {
        assert(st.push(s2).take(st.len() as int) =~= st);
    }
}

/// Each folded occurrence of a repeated message is the scan of its own
/// contents from the fresh message scanner, whatever occurrences came
/// before.
pub proof fn lemma_folded_occurrence_is_fresh_scan<
    'a,
    S: ScanCallbacks<'a> + CloneScanner,
    F: Fn(&mut S::ScanOutput, S::ScanOutput),
>(st: Seq<S::State>, fresh: S::State, c: DelimitedView, stack: StackModel)
    ensures
        match <RepeatedFold<S, F> as RepeatStrategyScanner<'a, S>>::spec_on_message(
            st,
            fresh,
            c,
            stack,
        ) {
            Ok((st2, stack2)) => st2.len() == st.len() + 1 && st2.take(st.len() as int) == st
                && spec_scan_delimited::<S>(fresh, c, stack) == Ok::<
                (S::State, StackModel),
                ScanErr,
            >((st2.last(), stack2)),
            Err(e) => spec_scan_delimited::<S>(fresh, c, stack) == Err::<
                (S::State, StackModel),
                ScanErr,
            >(e),
        },
{
    if let Ok((s2, stack2)) = spec_scan_delimited::<S>(fresh, c, stack) {
        assert(st.push(s2).take(st.len() as int) =~= st);
    }
}

/// Each written occurrence of a repeated message is the scan of its own
/// contents from the fresh message scanner, whatever occurrences came
/// before.
pub proof fn lemma_written_occurrence_is_fresh_scan<
    'a,
    S: ScanCallbacks<'a> + CloneScanner,
    D: PushTarget<S::ScanOutput>,
>(st: Seq<S::State>, fresh: S::State, c: DelimitedView, stack: StackModel)
    ensures
        match <RepeatedWriteCloned<S, D> as RepeatStrategyScanner<'a, S>>::spec_on_message(
            st,
            fresh,
            c,
            stack,
        ) {
            Ok((st2, stack2)) => st2.len() == st.len() + 1 && st2.take(st.len() as int) == st
                && spec_scan_delimited::<S>(fresh, c, stack) == Ok::<
                (S::State, StackModel),
                ScanErr,
            >((st2.last(), stack2)),
            Err(e) => spec_scan_delimited::<S>(fresh, c, stack) == Err::<
                (S::State, StackModel),
                ScanErr,
            >(e),
        },
{
    if let Ok((s2, stack2)) = spec_scan_delimited::<S>(fresh, c, stack) {
        assert(st.push(s2).take(st.len() as int) =~= st);
    }
}

} // verus!
