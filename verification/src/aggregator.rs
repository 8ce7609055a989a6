//! The algebra an aggregate must offer, and sums as its first instances.
use vstd::prelude::*;

verus! {

/// What a wheel needs of an aggregate: raw inputs are lifted into a mutable
/// partial, frozen into an immutable partial, combined with other partials
/// and at last lowered into the result shown to the user.
///
/// `combine` is associative and commutative with `identity` as its neutral
/// element, and freezing commutes with taking in one more input.
pub trait Aggregator: Sized {
    /// A raw event.
    type Input;

    /// The builder of a slot that is still being filled.
    type MutablePartialAggregate;

    /// The immutable intermediate the wheels store and combine.
    type PartialAggregate: Copy;

    /// The result shown to the user.
    type Aggregate;

    spec fn lift_spec(input: Self::Input) -> Self::MutablePartialAggregate;

    spec fn combine_mutable_spec(
        mutable: Self::MutablePartialAggregate,
        input: Self::Input,
    ) -> Self::MutablePartialAggregate;

    spec fn freeze_spec(mutable: Self::MutablePartialAggregate) -> Self::PartialAggregate;

    spec fn combine_spec(
        a: Self::PartialAggregate,
        b: Self::PartialAggregate,
    ) -> Self::PartialAggregate;

    spec fn identity_spec() -> Self::PartialAggregate;

    spec fn lower_spec(partial: Self::PartialAggregate) -> Self::Aggregate;

    /// Starts a mutable partial from one input.
    fn lift(input: Self::Input) -> (mutable: Self::MutablePartialAggregate)
        ensures
            mutable == Self::lift_spec(input),
    ;

    /// Takes one more input into a mutable partial.
    fn combine_mutable(mutable: &mut Self::MutablePartialAggregate, input: Self::Input)
        ensures
            *final(mutable) == Self::combine_mutable_spec(*old(mutable), input),
    ;

    /// Turns a mutable partial into an immutable one.
    fn freeze(mutable: Self::MutablePartialAggregate) -> (partial: Self::PartialAggregate)
        ensures
            partial == Self::freeze_spec(mutable),
    ;

    /// Combines two partials.
    fn combine(a: Self::PartialAggregate, b: Self::PartialAggregate) -> (partial:
        Self::PartialAggregate)
        ensures
            partial == Self::combine_spec(a, b),
    ;

    /// The partial that leaves every other unchanged when combined with it.
    fn identity() -> (partial: Self::PartialAggregate)
        ensures
            partial == Self::identity_spec(),
    ;

    /// Turns a partial into the final aggregate.
    fn lower(partial: Self::PartialAggregate) -> (aggregate: Self::Aggregate)
        ensures
            aggregate == Self::lower_spec(partial),
    ;

    /// `combine` is associative.
    proof fn combine_associative(
        a: Self::PartialAggregate,
        b: Self::PartialAggregate,
        c: Self::PartialAggregate,
    )
        ensures
            Self::combine_spec(Self::combine_spec(a, b), c) == Self::combine_spec(
                a,
                Self::combine_spec(b, c),
            ),
    ;

    /// `combine` is commutative.
    proof fn combine_commutative(a: Self::PartialAggregate, b: Self::PartialAggregate)
        ensures
            Self::combine_spec(a, b) == Self::combine_spec(b, a),
    ;

    /// `identity` is neutral for `combine`.
    proof fn combine_identity(a: Self::PartialAggregate)
        ensures
            Self::combine_spec(Self::identity_spec(), a) == a,
    ;

    /// Freezing after one more input equals combining the frozen partial with
    /// the frozen lift of that input.
    proof fn freeze_combine_mutable(mutable: Self::MutablePartialAggregate, input: Self::Input)
        ensures
            Self::freeze_spec(Self::combine_mutable_spec(mutable, input)) == Self::combine_spec(
                Self::freeze_spec(mutable),
                Self::freeze_spec(Self::lift_spec(input)),
            ),
    ;
}

/// An aggregate whose `combine` can be undone.
pub trait InverseExt: Aggregator {
    spec fn inverse_combine_spec(
        a: Self::PartialAggregate,
        b: Self::PartialAggregate,
    ) -> Self::PartialAggregate;

    /// Removes `b` from `a`.
    fn inverse_combine(a: Self::PartialAggregate, b: Self::PartialAggregate) -> (partial:
        Self::PartialAggregate)
        ensures
            partial == Self::inverse_combine_spec(a, b),
    ;

    /// Removing what was combined in gives back what was there before.
    proof fn inverse_cancels(a: Self::PartialAggregate, b: Self::PartialAggregate)
        ensures
            Self::inverse_combine_spec(Self::combine_spec(a, b), b) == a,
    ;
}

/// Combination of two optional partials, an absent one being neutral.
pub open spec fn combine_opt<A: Aggregator>(
    a: Option<A::PartialAggregate>,
    b: Option<A::PartialAggregate>,
) -> Option<A::PartialAggregate> {
    match (a, b) {
        (Some(x), Some(y)) => Some(A::combine_spec(x, y)),
        (None, Some(_)) => b,
        _ => a,
    }
}

/// Combination of a sequence of optional partials, from the first to the last.
pub open spec fn fold_opt<A: Aggregator>(parts: Seq<Option<A::PartialAggregate>>) -> Option<
    A::PartialAggregate,
>
    decreases parts.len(),
{
    if parts.len() == 0 {
        None
    } else {
        combine_opt::<A>(fold_opt::<A>(parts.drop_last()), parts.last())
    }
}

/// Combination of a sequence of partials, starting from the identity.
pub open spec fn fold_partials<A: Aggregator>(parts: Seq<A::PartialAggregate>) -> A::PartialAggregate
    decreases parts.len(),
{
    if parts.len() == 0 {
        A::identity_spec()
    } else {
        A::combine_spec(fold_partials::<A>(parts.drop_last()), parts.last())
    }
}

/// The partial an optional slot stands for: the identity where it is empty.
pub open spec fn or_identity<A: Aggregator>(part: Option<A::PartialAggregate>) -> A::PartialAggregate {
    match part {
        Some(p) => p,
        None => A::identity_spec(),
    }
}

/// Combines two optional partials, an absent one being neutral.
pub fn combine_or_keep<A: Aggregator>(
    a: Option<A::PartialAggregate>,
    b: Option<A::PartialAggregate>,
) -> (r: Option<A::PartialAggregate>)
    ensures
        r == combine_opt::<A>(a, b),
{
    match (a, b) {
        (Some(x), Some(y)) => Some(A::combine(x, y)),
        (None, Some(_)) => b,
        _ => a,
    }
}

/// Combines optional partials from the first to the last.
pub fn reduce<A: Aggregator>(parts: &[Option<A::PartialAggregate>]) -> (r: Option<
    A::PartialAggregate,
>)
    ensures
        r == fold_opt::<A>(parts@),
{
    let mut acc: Option<A::PartialAggregate> = None;
    let mut i: usize = 0;
    while i < parts.len()
        invariant
            i <= parts.len(),
            acc == fold_opt::<A>(parts@.take(i as int)),
        decreases parts.len() - i,
    {
        proof {
            assert(parts@.take(i + 1).drop_last() =~= parts@.take(i as int));
        }
        acc = combine_or_keep::<A>(acc, parts[i]);
        i += 1;
    }
    proof {
        assert(parts@.take(i as int) =~= parts@);
    }
    acc
}

/// `combine_opt` is associative.
pub proof fn lemma_combine_opt_associative<A: Aggregator>(
    a: Option<A::PartialAggregate>,
    b: Option<A::PartialAggregate>,
    c: Option<A::PartialAggregate>,
)
    ensures
        combine_opt::<A>(combine_opt::<A>(a, b), c) == combine_opt::<A>(a, combine_opt::<A>(b, c)),
{
    if a is Some && b is Some && c is Some {
        A::combine_associative(a->0, b->0, c->0);
    }
}

/// `combine_opt` is commutative.
pub proof fn lemma_combine_opt_commutative<A: Aggregator>(
    a: Option<A::PartialAggregate>,
    b: Option<A::PartialAggregate>,
)
    ensures
        combine_opt::<A>(a, b) == combine_opt::<A>(b, a),
{
    if a is Some && b is Some {
        A::combine_commutative(a->0, b->0);
    }
}

/// Folding a concatenation combines the folds of its two parts.
pub proof fn lemma_fold_opt_concat<A: Aggregator>(
    a: Seq<Option<A::PartialAggregate>>,
    b: Seq<Option<A::PartialAggregate>>,
)
    ensures
        fold_opt::<A>(a + b) == combine_opt::<A>(fold_opt::<A>(a), fold_opt::<A>(b)),
    decreases b.len(),
{
    if b.len() == 0 {
        assert(a + b =~= a);
    } else {
        assert((a + b).drop_last() =~= a + b.drop_last());
        assert((a + b).last() == b.last());
        lemma_fold_opt_concat::<A>(a, b.drop_last());
        lemma_combine_opt_associative::<A>(fold_opt::<A>(a), fold_opt::<A>(b.drop_last()), b.last());
    }
}

/// Combining `a ⊕ b` with `c ⊕ d` gives the same as combining `a ⊕ c` with `b ⊕ d`.
pub proof fn lemma_combine_opt_interchange<A: Aggregator>(
    a: Option<A::PartialAggregate>,
    b: Option<A::PartialAggregate>,
    c: Option<A::PartialAggregate>,
    d: Option<A::PartialAggregate>,
)
    ensures
        combine_opt::<A>(combine_opt::<A>(a, b), combine_opt::<A>(c, d)) == combine_opt::<A>(
            combine_opt::<A>(a, c),
            combine_opt::<A>(b, d),
        ),
{
    let bc = combine_opt::<A>(b, c);
    let cb = combine_opt::<A>(c, b);
    lemma_combine_opt_commutative::<A>(b, c);
    lemma_combine_opt_associative::<A>(a, b, combine_opt::<A>(c, d));
    lemma_combine_opt_associative::<A>(b, c, d);
    lemma_combine_opt_associative::<A>(c, b, d);
    lemma_combine_opt_associative::<A>(a, c, combine_opt::<A>(b, d));
}

/// The slots of `a` and `b` combined pairwise; `b` is as long as `a`.
pub open spec fn zip_opt<A: Aggregator>(
    a: Seq<Option<A::PartialAggregate>>,
    b: Seq<Option<A::PartialAggregate>>,
) -> Seq<Option<A::PartialAggregate>> {
    Seq::new(a.len(), |i: int| combine_opt::<A>(a[i], b[i]))
}

/// Folding slots combined pairwise combines the folds.
pub proof fn lemma_fold_opt_zip<A: Aggregator>(
    a: Seq<Option<A::PartialAggregate>>,
    b: Seq<Option<A::PartialAggregate>>,
)
    requires
        a.len() == b.len(),
    ensures
        fold_opt::<A>(zip_opt::<A>(a, b)) == combine_opt::<A>(fold_opt::<A>(a), fold_opt::<A>(b)),
    decreases a.len(),
{
    if a.len() > 0 {
        let z = zip_opt::<A>(a, b);
        assert(z.drop_last() =~= zip_opt::<A>(a.drop_last(), b.drop_last()));
        lemma_fold_opt_zip::<A>(a.drop_last(), b.drop_last());
        lemma_combine_opt_interchange::<A>(
            fold_opt::<A>(a.drop_last()),
            fold_opt::<A>(b.drop_last()),
            a.last(),
            b.last(),
        );
    }
}

/// The fold of partials is the fold of all but the first, combined with the first.
pub proof fn lemma_fold_partials_first<A: Aggregator>(parts: Seq<A::PartialAggregate>)
    requires
        parts.len() >= 1,
    ensures
        fold_partials::<A>(parts) == A::combine_spec(
            fold_partials::<A>(parts.drop_first()),
            parts[0],
        ),
    decreases parts.len(),
{
    if parts.len() == 1 {
        assert(parts.drop_first() =~= parts.drop_last());
    } else {
        let rest = parts.drop_last();
        lemma_fold_partials_first::<A>(rest);
        assert(rest.drop_first() =~= parts.drop_first().drop_last());
        assert(parts.drop_first().last() == parts.last());
        let inner = fold_partials::<A>(rest.drop_first());
        A::combine_associative(inner, parts[0], parts.last());
        A::combine_commutative(parts[0], parts.last());
        A::combine_associative(inner, parts.last(), parts[0]);
    }
}

/// A sequence of `len` empty slots, but for `part` at `index`.
pub open spec fn single_opt<A: Aggregator>(
    len: nat,
    index: int,
    part: Option<A::PartialAggregate>,
) -> Seq<Option<A::PartialAggregate>> {
    Seq::new(
        len,
        |i: int|
            if i == index {
                part
            } else {
                None
            },
    )
}

/// Folding slots of which one at most is filled gives that one.
pub proof fn lemma_fold_opt_single_at<A: Aggregator>(
    len: nat,
    index: int,
    part: Option<A::PartialAggregate>,
)
    requires
        0 <= index < len,
    ensures
        fold_opt::<A>(single_opt::<A>(len, index, part)) == part,
    decreases len,
{
    let s = single_opt::<A>(len, index, part);
    if index == len - 1 {
        lemma_fold_opt_all_empty::<A>(s.drop_last());
    } else {
        assert(s.drop_last() =~= single_opt::<A>((len - 1) as nat, index, part));
        lemma_fold_opt_single_at::<A>((len - 1) as nat, index, part);
    }
}

/// Combining `part` into one slot combines it into the fold.
pub proof fn lemma_fold_opt_update<A: Aggregator>(
    parts: Seq<Option<A::PartialAggregate>>,
    index: int,
    part: Option<A::PartialAggregate>,
)
    requires
        0 <= index < parts.len(),
    ensures
        fold_opt::<A>(parts.update(index, combine_opt::<A>(parts[index], part))) == combine_opt::<A>(
            fold_opt::<A>(parts),
            part,
        ),
{
    let unit = single_opt::<A>(parts.len(), index, part);
    assert(zip_opt::<A>(parts, unit) =~= parts.update(
        index,
        combine_opt::<A>(parts[index], part),
    ));
    lemma_fold_opt_zip::<A>(parts, unit);
    lemma_fold_opt_single_at::<A>(parts.len(), index, part);
}

/// Folding one slot gives that slot.
pub proof fn lemma_fold_opt_single<A: Aggregator>(p: Option<A::PartialAggregate>)
    ensures
        fold_opt::<A>(seq![p]) == p,
{
    assert(seq![p].drop_last() =~= Seq::<Option<A::PartialAggregate>>::empty());
    assert(fold_opt::<A>(seq![p].drop_last()) == None::<A::PartialAggregate>);
}

/// Folding slots that are all empty gives nothing.
pub proof fn lemma_fold_opt_all_empty<A: Aggregator>(parts: Seq<Option<A::PartialAggregate>>)
    requires
        forall|i: int| 0 <= i < parts.len() ==> parts[i] is None,
    ensures
        fold_opt::<A>(parts) is None,
    decreases parts.len(),
{
    if parts.len() > 0 {
        lemma_fold_opt_all_empty::<A>(parts.drop_last());
    }
}

/// Sum of `u32` values, wrapping round at the type's limit.
#[derive(Clone, Copy, Debug, Default)]
pub struct U32SumAggregator;

/// The sum of two `u32` values modulo 2^32.
pub open spec fn wrapping_sum_u32(a: u32, b: u32) -> u32 {
    if a + b > u32::MAX {
        (a + b - 0x1_0000_0000) as u32
    } else {
        (a + b) as u32
    }
}

/// The difference of two `u32` values modulo 2^32.
pub open spec fn wrapping_diff_u32(a: u32, b: u32) -> u32 {
    if a < b {
        (a - b + 0x1_0000_0000) as u32
    } else {
        (a - b) as u32
    }
}

impl Aggregator for U32SumAggregator {
    type Input = u32;

    type MutablePartialAggregate = u32;

    type PartialAggregate = u32;

    type Aggregate = u32;

    open spec fn lift_spec(input: u32) -> u32 {
        input
    }

    open spec fn combine_mutable_spec(mutable: u32, input: u32) -> u32 {
        wrapping_sum_u32(mutable, input)
    }

    open spec fn freeze_spec(mutable: u32) -> u32 {
        mutable
    }

    open spec fn combine_spec(a: u32, b: u32) -> u32 {
        wrapping_sum_u32(a, b)
    }

    open spec fn identity_spec() -> u32 {
        0
    }

    open spec fn lower_spec(partial: u32) -> u32 {
        partial
    }

    fn lift(input: u32) -> (mutable: u32) {
        input
    }

    fn combine_mutable(mutable: &mut u32, input: u32) {
        *mutable = mutable.wrapping_add(input);
    }

    fn freeze(mutable: u32) -> (partial: u32) {
        mutable
    }

    fn combine(a: u32, b: u32) -> (partial: u32) {
        a.wrapping_add(b)
    }

    fn identity() -> (partial: u32) {
        0
    }

    fn lower(partial: u32) -> (aggregate: u32) {
        partial
    }

    proof fn combine_associative(a: u32, b: u32, c: u32) {
    }

    proof fn combine_commutative(a: u32, b: u32) {
    }

    proof fn combine_identity(a: u32) {
    }

    proof fn freeze_combine_mutable(mutable: u32, input: u32) {
    }
}

impl InverseExt for U32SumAggregator {
    open spec fn inverse_combine_spec(a: u32, b: u32) -> u32 {
        wrapping_diff_u32(a, b)
    }

    fn inverse_combine(a: u32, b: u32) -> (partial: u32) {
        a.wrapping_sub(b)
    }

    proof fn inverse_cancels(a: u32, b: u32) {
    }
}

/// Sum of `u64` values, wrapping round at the type's limit.
#[derive(Clone, Copy, Debug, Default)]
pub struct U64SumAggregator;

/// The sum of two `u64` values modulo 2^64.
pub open spec fn wrapping_sum_u64(a: u64, b: u64) -> u64 {
    if a + b > u64::MAX {
        (a + b - 0x1_0000_0000_0000_0000) as u64
    } else {
        (a + b) as u64
    }
}

/// The difference of two `u64` values modulo 2^64.
pub open spec fn wrapping_diff_u64(a: u64, b: u64) -> u64 {
    if a < b {
        (a - b + 0x1_0000_0000_0000_0000) as u64
    } else {
        (a - b) as u64
    }
}

impl Aggregator for U64SumAggregator {
    type Input = u64;

    type MutablePartialAggregate = u64;

    type PartialAggregate = u64;

    type Aggregate = u64;

    open spec fn lift_spec(input: u64) -> u64 {
        input
    }

    open spec fn combine_mutable_spec(mutable: u64, input: u64) -> u64 {
        wrapping_sum_u64(mutable, input)
    }

    open spec fn freeze_spec(mutable: u64) -> u64 {
        mutable
    }

    open spec fn combine_spec(a: u64, b: u64) -> u64 {
        wrapping_sum_u64(a, b)
    }

    open spec fn identity_spec() -> u64 {
        0
    }

    open spec fn lower_spec(partial: u64) -> u64 {
        partial
    }

    fn lift(input: u64) -> (mutable: u64) {
        input
    }

    fn combine_mutable(mutable: &mut u64, input: u64) {
        *mutable = mutable.wrapping_add(input);
    }

    fn freeze(mutable: u64) -> (partial: u64) {
        mutable
    }

    fn combine(a: u64, b: u64) -> (partial: u64) {
        a.wrapping_add(b)
    }

    fn identity() -> (partial: u64) {
        0
    }

    fn lower(partial: u64) -> (aggregate: u64) {
        partial
    }

    proof fn combine_associative(a: u64, b: u64, c: u64) {
    }

    proof fn combine_commutative(a: u64, b: u64) {
    }

    proof fn combine_identity(a: u64) {
    }

    proof fn freeze_combine_mutable(mutable: u64, input: u64) {
    }
}

impl InverseExt for U64SumAggregator {
    open spec fn inverse_combine_spec(a: u64, b: u64) -> u64 {
        wrapping_diff_u64(a, b)
    }

    fn inverse_combine(a: u64, b: u64) -> (partial: u64) {
        a.wrapping_sub(b)
    }

    proof fn inverse_cancels(a: u64, b: u64) {
    }
}

} // verus!
