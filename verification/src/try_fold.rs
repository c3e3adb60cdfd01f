use crate::valid::Cause;
use crate::valid::Valid;
use vstd::prelude::*;

verus! {

/// A value that can be duplicated without changing its abstract content.
/// The evaluator needs this to hand one state to two branches.
pub trait DupValue: DeepView + Sized {
    fn dup(&self) -> (r: Self)
        ensures
            r.deep_view() == self.deep_view(),
    ;
}

impl DupValue for i64 {
    fn dup(&self) -> (r: Self)
        ensures
            r.deep_view() == self.deep_view(),
    {
        *self
    }
}

impl DupValue for String {
    fn dup(&self) -> (r: Self)
        ensures
            r.deep_view() == self.deep_view(),
    {
        self.clone()
    }
}

/// One step of a fold: given an input and a state, it either produces a new
/// state or fails.  `model` is the step's mathematical meaning, over the deep
/// views of the values; `apply` must return exactly what `model` says.
pub trait FoldStep: Sized {
    type In: DeepView;

    type St: DeepView;

    type Err: DeepView;

    /// When the step may be applied (used to rule out overflow and the like).
    spec fn pre(
        self,
        input: <Self::In as DeepView>::V,
        state: <Self::St as DeepView>::V,
    ) -> bool;

    /// What the step computes: the new state, or the messages it fails with.
    spec fn model(self, input: <Self::In as DeepView>::V, state: <Self::St as DeepView>::V) -> Result<
        <Self::St as DeepView>::V,
        Seq<<Self::Err as DeepView>::V>,
    >;

    fn apply(&self, input: &Self::In, state: &Self::St) -> (r: Valid<Self::St, Self::Err>)
        requires
            self.pre(input.deep_view(), state.deep_view()),
        ensures
            r.wf(),
            step_matches::<Self::St, Self::Err>(
                self.model(input.deep_view(), state.deep_view()),
                r,
            ),
    ;
}

/// Whether an outcome `r` realises the abstract step result `m`: same success
/// value, or exactly the listed messages, each with an empty trace.
pub open spec fn step_matches<O: DeepView, E: DeepView>(
    m: Result<<O as DeepView>::V, Seq<<E as DeepView>::V>>,
    r: Valid<O, E>,
) -> bool {
    match m {
        Result::Ok(ov) => r.is_succ() && r.val().deep_view() == ov,
        Result::Err(es) => !r.is_succ() && errs_match::<E>(r.errs(), es),
    }
}

/// The causes carry exactly the given messages, in order, with empty traces.
pub open spec fn errs_match<E: DeepView>(cs: Seq<Cause<E>>, es: Seq<<E as DeepView>::V>) -> bool {
    cs.len() == es.len() && forall|i: int|
        0 <= i < cs.len() ==> (#[trigger] cs[i]).message.deep_view() == es[i]
            && cs[i].trace_model() == Seq::<Seq<char>>::empty()
}

/// A composable, possibly-failing transformation of `(input, state)` into a
/// new state.  Composition with `and` does not short-circuit: when the first
/// part fails, the second still runs against the original state, and the
/// error lists are concatenated.
pub enum TryFold<S: FoldStep> {
    /// The identity fold: always succeeds with the state unchanged.
    Identity,
    /// Always succeeds with a fixed state, whatever the input.
    Fixed(S::St),
    /// A single checking step.
    Check(S),
    /// Sequential composition of two folds.
    Seq2(Box<TryFold<S>>, Box<TryFold<S>>),
}

/// The meaning of a fold: the state it produces, or the messages of every
/// failing part, concatenated left to right.  A failing part sees the state
/// left by the successful parts before it, never one left by a failing part.
pub open spec fn eval<S: FoldStep>(
    t: TryFold<S>,
    input: <S::In as DeepView>::V,
    state: <S::St as DeepView>::V,
) -> Result<<S::St as DeepView>::V, Seq<<S::Err as DeepView>::V>>
    decreases t,
{
    match t {
        TryFold::Identity => Result::Ok(state),
        TryFold::Fixed(o) => Result::Ok(o.deep_view()),
        TryFold::Check(s) => s.model(input, state),
        TryFold::Seq2(l, r) => match eval(*l, input, state) {
            Result::Ok(s1) => eval(*r, input, s1),
            Result::Err(es1) => match eval(*r, input, state) {
                Result::Ok(_) => Result::Err(es1),
                Result::Err(es2) => Result::Err(es1 + es2),
            },
        },
    }
}

/// Every step met during evaluation is applied within its precondition.
pub open spec fn eval_wf<S: FoldStep>(
    t: TryFold<S>,
    input: <S::In as DeepView>::V,
    state: <S::St as DeepView>::V,
) -> bool
    decreases t,
{
    match t {
        TryFold::Identity => true,
        TryFold::Fixed(_) => true,
        TryFold::Check(s) => s.pre(input, state),
        TryFold::Seq2(l, r) => eval_wf(*l, input, state) && match eval(*l, input, state) {
            Result::Ok(s1) => eval_wf(*r, input, s1),
            Result::Err(_) => eval_wf(*r, input, state),
        },
    }
}

impl<S: FoldStep> TryFold<S> where S::St: DupValue {
    /// Runs the fold.  The result is exactly what `eval` says.
    pub fn try_fold(&self, input: &S::In, state: &S::St) -> (r: Valid<S::St, S::Err>)
        requires
            eval_wf(*self, input.deep_view(), state.deep_view()),
        ensures
            r.wf(),
            step_matches::<S::St, S::Err>(
                eval(*self, input.deep_view(), state.deep_view()),
                r,
            ),
        decreases *self,
    {
        match self {
            TryFold::Identity => Valid::succeed(state.dup()),
            TryFold::Fixed(o) => Valid::succeed(o.dup()),
            TryFold::Check(s) => s.apply(input, state),
            TryFold::Seq2(l, r) => {
                let left = l.try_fold(input, state);
                match left.res {
                    Result::Ok(s1) => r.try_fold(input, &s1),
                    Result::Err(e1) => {
                        let right = r.try_fold(input, state);
                        match right.res {
                            Result::Ok(_) => Valid::from_validation_err(e1),
                            Result::Err(e2) => {
                                let combined = e1.combine(e2);
                                let out = Valid::from_validation_err(combined);
                                out
                            },
                        }
                    },
                }
            },
        }
    }
}

impl<S: FoldStep> TryFold<S> {
    /// A fold made of one checking step.
    pub fn new(step: S) -> (r: TryFold<S>)
        ensures
            r == TryFold::Check(step),
    {
        TryFold::Check(step)
    }

    /// Sequential composition; see `eval` for how errors accumulate.
    pub fn and(self, other: TryFold<S>) -> (r: TryFold<S>)
        ensures
            r matches TryFold::Seq2(l, rr) && *l == self && *rr == other,
    {
        TryFold::Seq2(Box::new(self), Box::new(other))
    }

    /// A fold that always succeeds with the given state.
    pub fn succeed(state: S::St) -> (r: TryFold<S>)
        ensures
            r == TryFold::<S>::Fixed(state),
    {
        TryFold::Fixed(state)
    }

    /// The identity fold.
    pub fn empty() -> (r: TryFold<S>)
        ensures
            r == TryFold::<S>::Identity,
    {
        TryFold::Identity
    }

    /// Folds `and` over the whole list, associating to the right; the empty
    /// list gives the identity fold.
    pub fn from_iter(items: Vec<TryFold<S>>) -> (r: TryFold<S>)
        ensures
            is_chain(r, items@),
        decreases items@.len(),
    {
        let mut items = items;
        if items.len() == 0 {
            TryFold::Identity
        } else {
            let head = items.remove(0);
            let rest = TryFold::from_iter(items);
            head.and(rest)
        }
    }
}

/// A bidirectional, possibly-failing mapping between two state types, used
/// to run a fold over one state type against another.
pub trait ValueMapper: Sized {
    type From: DeepView;

    type To: DeepView;

    type Err: DeepView;

    spec fn up_pre(self, o: <Self::From as DeepView>::V) -> bool;

    /// The meaning of the forward direction.
    spec fn up_model(self, o: <Self::From as DeepView>::V) -> Result<
        <Self::To as DeepView>::V,
        Seq<<Self::Err as DeepView>::V>,
    >;

    spec fn down_pre(self, o: <Self::To as DeepView>::V) -> bool;

    /// The meaning of the backward direction.
    spec fn down_model(self, o: <Self::To as DeepView>::V) -> Result<
        <Self::From as DeepView>::V,
        Seq<<Self::Err as DeepView>::V>,
    >;

    fn up(&self, o: &Self::From) -> (r: Valid<Self::To, Self::Err>)
        requires
            self.up_pre(o.deep_view()),
        ensures
            r.wf(),
            step_matches::<Self::To, Self::Err>(self.up_model(o.deep_view()), r),
    ;

    fn down(&self, o: &Self::To) -> (r: Valid<Self::From, Self::Err>)
        requires
            self.down_pre(o.deep_view()),
        ensures
            r.wf(),
            step_matches::<Self::From, Self::Err>(self.down_model(o.deep_view()), r),
    ;
}

/// A whole fold over one state type, seen as a single step over another:
/// map the state down, run the inner fold, map the result back up.  These
/// three stages are dependent, so a failing stage stops the later ones.
pub struct Mapped<S: FoldStep, C: ValueMapper> {
    pub inner: TryFold<S>,
    pub conv: C,
}

impl<S: FoldStep, C: ValueMapper<From = S::St, Err = S::Err>> FoldStep for Mapped<S, C> where
    S::St: DupValue,
 {
    type In = S::In;

    type St = C::To;

    type Err = S::Err;

    open spec fn pre(
        self,
        input: <S::In as DeepView>::V,
        state: <C::To as DeepView>::V,
    ) -> bool {
        self.conv.down_pre(state) && match self.conv.down_model(state) {
            Result::Ok(o) => eval_wf(self.inner, input, o) && match eval(self.inner, input, o) {
                Result::Ok(o2) => self.conv.up_pre(o2),
                Result::Err(_) => true,
            },
            Result::Err(_) => true,
        }
    }

    open spec fn model(
        self,
        input: <S::In as DeepView>::V,
        state: <C::To as DeepView>::V,
    ) -> Result<<C::To as DeepView>::V, Seq<<S::Err as DeepView>::V>> {
        match self.conv.down_model(state) {
            Result::Ok(o) => match eval(self.inner, input, o) {
                Result::Ok(o2) => self.conv.up_model(o2),
                Result::Err(es) => Result::Err(es),
            },
            Result::Err(es) => Result::Err(es),
        }
    }

    fn apply(&self, input: &S::In, state: &C::To) -> (r: Valid<C::To, S::Err>) {
        match self.conv.down(state).res {
            Result::Err(e) => Valid::from_validation_err(e),
            Result::Ok(o) => {
                match self.inner.try_fold(input, &o).res {
                    Result::Err(e) => Valid::from_validation_err(e),
                    Result::Ok(o2) => self.conv.up(&o2),
                }
            },
        }
    }
}

impl<S: FoldStep> TryFold<S> where S::St: DupValue {
    /// Adapts this fold to run over another state type, through the given
    /// bidirectional mapping.
    pub fn transform_valid<C: ValueMapper<From = S::St, Err = S::Err>>(self, conv: C) -> (r:
        TryFold<Mapped<S, C>>)
        ensures
            r == TryFold::Check(Mapped { inner: self, conv }),
    {
        TryFold::Check(Mapped { inner: self, conv })
    }

    /// Like `transform_valid`; meant for mappings whose two directions
    /// cannot fail.
    pub fn transform<C: ValueMapper<From = S::St, Err = S::Err>>(self, conv: C) -> (r: TryFold<
        Mapped<S, C>,
    >)
        ensures
            r == TryFold::Check(Mapped { inner: self, conv }),
    {
        self.transform_valid(conv)
    }
}

/// `t` is the right-associated `and`-chain of `items` (ending in the
/// identity fold), as `from_iter` builds it.
pub open spec fn is_chain<S: FoldStep>(t: TryFold<S>, items: Seq<TryFold<S>>) -> bool
    decreases items.len(),
{
    if items.len() == 0 {
        t == TryFold::<S>::Identity
    } else {
        t matches TryFold::Seq2(h, rest) && *h == items[0] && is_chain(*rest, items.drop_first())
    }
}

/// The flat accumulation semantics of a list of folds, applied left to
/// right: a failing member sees the state left by the successful members
/// before it — never a state left by another failing member — and the error
/// lists of all failing members are concatenated in list order.
pub open spec fn chain_eval<S: FoldStep>(
    items: Seq<TryFold<S>>,
    input: <S::In as DeepView>::V,
    state: <S::St as DeepView>::V,
) -> Result<<S::St as DeepView>::V, Seq<<S::Err as DeepView>::V>>
    decreases items.len(),
{
    if items.len() == 0 {
        Result::Ok(state)
    } else {
        match eval(items[0], input, state) {
            Result::Ok(s1) => chain_eval(items.drop_first(), input, s1),
            Result::Err(es) => match chain_eval(items.drop_first(), input, state) {
                Result::Ok(_) => Result::Err(es),
                Result::Err(es2) => Result::Err(es + es2),
            },
        }
    }
}

/// Accumulation law for `from_iter`: the fold it builds means exactly the
/// flat left-to-right accumulation of its members.  When every member
/// succeeds, that is sequential application; when members fail, every
/// failing member contributes its errors, in order, each computed against
/// the state left by the successful members before it.
pub proof fn lemma_from_iter_accumulation<S: FoldStep>(
    t: TryFold<S>,
    items: Seq<TryFold<S>>,
    input: <S::In as DeepView>::V,
    state: <S::St as DeepView>::V,
)
    requires
        is_chain(t, items),
    ensures
        eval(t, input, state) == chain_eval(items, input, state),
    decreases items.len(),
{
    if items.len() == 0 {
    } else {
        match t {
            TryFold::Seq2(h, rest) => {
                match eval(items[0], input, state) {
                    Result::Ok(s1) => {
                        lemma_from_iter_accumulation(*rest, items.drop_first(), input, s1);
                    },
                    Result::Err(_) => {
                        lemma_from_iter_accumulation(*rest, items.drop_first(), input, state);
                    },
                }
            },
            _ => {
                assert(false);
            },
        }
    }
}

/// When the three parts of either grouping all succeed, both groupings
/// succeed with the state of sequential application.
pub proof fn lemma_grouping_success<S: FoldStep>(
    left_grouped: TryFold<S>,
    right_grouped: TryFold<S>,
    a: TryFold<S>,
    b: TryFold<S>,
    c: TryFold<S>,
    input: <S::In as DeepView>::V,
    state: <S::St as DeepView>::V,
    sa: <S::St as DeepView>::V,
    sb: <S::St as DeepView>::V,
    sc: <S::St as DeepView>::V,
)
    requires
        left_grouped matches TryFold::Seq2(l, cc) && *cc == c && (*l matches TryFold::Seq2(aa, bb)
            && *aa == a && *bb == b),
        right_grouped matches TryFold::Seq2(aa, r) && *aa == a && (*r matches TryFold::Seq2(bb, cc)
            && *bb == b && *cc == c),
        eval(a, input, state) == Result::<_, Seq<<S::Err as DeepView>::V>>::Ok(sa),
        eval(b, input, sa) == Result::<_, Seq<<S::Err as DeepView>::V>>::Ok(sb),
        eval(c, input, sb) == Result::<_, Seq<<S::Err as DeepView>::V>>::Ok(sc),
    ensures
        eval(left_grouped, input, state) == Result::<_, Seq<<S::Err as DeepView>::V>>::Ok(sc),
        eval(right_grouped, input, state) == Result::<_, Seq<<S::Err as DeepView>::V>>::Ok(sc),
{
    match left_grouped {
        TryFold::Seq2(l, _) => {
            assert(eval(*l, input, state) == Result::<
                <S::St as DeepView>::V,
                Seq<<S::Err as DeepView>::V>,
            >::Ok(sb));
        },
        _ => {},
    }
    match right_grouped {
        TryFold::Seq2(_, r) => {
            assert(eval(*r, input, sa) == Result::<
                <S::St as DeepView>::V,
                Seq<<S::Err as DeepView>::V>,
            >::Ok(sc));
        },
        _ => {},
    }
}

/// Grouping decides which state a failing later part sees.  With the first
/// part failing and the second succeeding, a failing third part sees the
/// original state under left grouping, but the second part's state under
/// right grouping: the error lists agree on the first entry and differ
/// exactly there.
pub proof fn lemma_grouping_error_order<S: FoldStep>(
    left_grouped: TryFold<S>,
    right_grouped: TryFold<S>,
    a: TryFold<S>,
    b: TryFold<S>,
    c: TryFold<S>,
    input: <S::In as DeepView>::V,
    state: <S::St as DeepView>::V,
    ea: Seq<<S::Err as DeepView>::V>,
    sb: <S::St as DeepView>::V,
    ec_orig: Seq<<S::Err as DeepView>::V>,
    ec_post: Seq<<S::Err as DeepView>::V>,
)
    requires
        left_grouped matches TryFold::Seq2(l, cc) && *cc == c && (*l matches TryFold::Seq2(aa, bb)
            && *aa == a && *bb == b),
        right_grouped matches TryFold::Seq2(aa, r) && *aa == a && (*r matches TryFold::Seq2(bb, cc)
            && *bb == b && *cc == c),
        eval(a, input, state) == Result::<<S::St as DeepView>::V, _>::Err(ea),
        eval(b, input, state) == Result::<_, Seq<<S::Err as DeepView>::V>>::Ok(sb),
        eval(c, input, state) == Result::<<S::St as DeepView>::V, _>::Err(ec_orig),
        eval(c, input, sb) == Result::<<S::St as DeepView>::V, _>::Err(ec_post),
    ensures
        eval(left_grouped, input, state) == Result::<<S::St as DeepView>::V, _>::Err(ea + ec_orig),
        eval(right_grouped, input, state) == Result::<<S::St as DeepView>::V, _>::Err(ea + ec_post),
{
    match left_grouped {
        TryFold::Seq2(l, _) => {
            assert(eval(*l, input, state) == Result::<
                <S::St as DeepView>::V,
                Seq<<S::Err as DeepView>::V>,
            >::Err(ea));
        },
        _ => {},
    }
    match right_grouped {
        TryFold::Seq2(_, r) => {
            assert(eval(*r, input, state) == Result::<
                <S::St as DeepView>::V,
                Seq<<S::Err as DeepView>::V>,
            >::Err(ec_post));
        },
        _ => {},
    }
}

} // verus!
