use vstd::prelude::*;
use vstd::string::StringExecFns;

verus! {

/// One validation error: a message plus the trace of names (type, field,
/// directive) that leads to the place the error was found.
#[derive(Debug, PartialEq)]
pub struct Cause<E> {
    pub message: E,
    pub trace: Vec<String>,
}

/// A non-empty, ordered collection of `Cause`s.  Order is part of the
/// contract: diagnostics must be reproducible.
#[derive(Debug, PartialEq)]
pub struct ValidationError<E> {
    pub causes: Vec<Cause<E>>,
}

/// An accumulating validation outcome: either a value or every error that
/// the independent checks found.
#[derive(Debug, PartialEq)]
pub struct Valid<A, E> {
    pub res: Result<A, ValidationError<E>>,
}

impl<E> Cause<E> {
    /// The trace of this cause, as a sequence of character sequences.
    pub open spec fn trace_model(self) -> Seq<Seq<char>> {
        self.trace.deep_view()
    }

    pub fn new(message: E) -> (r: Cause<E>)
        ensures
            r.message == message,
            r.trace_model() =~= Seq::<Seq<char>>::empty(),
    {
        Cause { message, trace: Vec::new() }
    }
}

impl<E> ValidationError<E> {
    /// Well-formed: a `ValidationError` always carries at least one cause.
    pub open spec fn wf(self) -> bool {
        self.causes@.len() > 0
    }

    pub open spec fn model(self) -> Seq<Cause<E>> {
        self.causes@
    }

    pub fn new(message: E) -> (r: ValidationError<E>)
        ensures
            r.wf(),
            r.model().len() == 1,
            r.model()[0].message == message,
            r.model()[0].trace_model() =~= Seq::<Seq<char>>::empty(),
    {
        let mut causes: Vec<Cause<E>> = Vec::new();
        causes.push(Cause::new(message));
        ValidationError { causes }
    }

    /// Concatenates the causes of `self` and `other`, in that order.
    pub fn combine(self, other: ValidationError<E>) -> (r: ValidationError<E>)
        ensures
            r.model() == self.model() + other.model(),
    {
        let mut causes = self.causes;
        let mut more = other.causes;
        causes.append(&mut more);
        proof {
            assert(causes@ =~= self.causes@ + other.causes@);
        }
        ValidationError { causes }
    }
}

impl<A, E> Valid<A, E> {
    /// Well-formed: a failed outcome carries at least one cause.
    pub open spec fn wf(self) -> bool {
        match self.res {
            Result::Ok(_) => true,
            Result::Err(e) => e.wf(),
        }
    }

    /// The causes carried by a failed outcome (empty when successful).
    pub open spec fn errs(self) -> Seq<Cause<E>> {
        match self.res {
            Result::Ok(_) => Seq::empty(),
            Result::Err(e) => e.model(),
        }
    }

    pub open spec fn is_succ(self) -> bool {
        self.res is Ok
    }

    pub open spec fn val(self) -> A
        recommends
            self.is_succ(),
    {
        self.res->Ok_0
    }

    pub fn succeed(a: A) -> (r: Valid<A, E>)
        ensures
            r.res == Result::<A, ValidationError<E>>::Ok(a),
            r.wf(),
    {
        Valid { res: Result::Ok(a) }
    }

    pub fn fail(message: E) -> (r: Valid<A, E>)
        ensures
            !r.is_succ(),
            r.wf(),
            r.errs().len() == 1,
            r.errs()[0].message == message,
            r.errs()[0].trace_model() =~= Seq::<Seq<char>>::empty(),
    {
        Valid { res: Result::Err(ValidationError::new(message)) }
    }

    pub fn from_validation_err(e: ValidationError<E>) -> (r: Valid<A, E>)
        ensures
            r.res == Result::<A, ValidationError<E>>::Err(e),
    {
        Valid { res: Result::Err(e) }
    }

    pub fn from_option(opt: Option<A>, message: E) -> (r: Valid<A, E>)
        ensures
            opt is Some ==> r.res == Result::<A, ValidationError<E>>::Ok(opt->0),
            opt is None ==> !r.is_succ() && r.errs().len() == 1 && r.errs()[0].message == message
                && r.errs()[0].trace_model() =~= Seq::<Seq<char>>::empty(),
            r.wf(),
    {
        match opt {
            Option::Some(a) => Valid::succeed(a),
            Option::None => Valid::fail(message),
        }
    }

    /// Pairs two outcomes.  Both must succeed for the pair to be produced;
    /// when either fails, the errors of *both* are kept, the left ones first.
    pub fn zip<B>(self, other: Valid<B, E>) -> (r: Valid<(A, B), E>)
        ensures
            self.is_succ() && other.is_succ() ==> r.res == Result::<(A, B), ValidationError<E>>::Ok(
                (self.val(), other.val()),
            ),
            !(self.is_succ() && other.is_succ()) ==> !r.is_succ() && r.errs() == self.errs()
                + other.errs(),
            self.wf() && other.wf() ==> r.wf(),
    {
        match (self.res, other.res) {
            (Result::Ok(a), Result::Ok(b)) => {
                let r = Valid::succeed((a, b));
                proof {
                    assert(r.errs() =~= Seq::<Cause<E>>::empty());
                }
                r
            },
            (Result::Ok(_), Result::Err(e2)) => {
                let r = Valid::from_validation_err(e2);
                proof {
                    assert(r.errs() =~= Seq::<Cause<E>>::empty() + e2.model());
                }
                r
            },
            (Result::Err(e1), Result::Ok(_)) => {
                let r = Valid::from_validation_err(e1);
                proof {
                    assert(r.errs() =~= e1.model() + Seq::<Cause<E>>::empty());
                }
                r
            },
            (Result::Err(e1), Result::Err(e2)) => Valid::from_validation_err(e1.combine(e2)),
        }
    }

    /// Keeps the right value; accumulates the errors of both sides.
    pub fn and<B>(self, other: Valid<B, E>) -> (r: Valid<B, E>)
        ensures
            self.is_succ() && other.is_succ() ==> r.res == Result::<B, ValidationError<E>>::Ok(
                other.val(),
            ),
            !(self.is_succ() && other.is_succ()) ==> !r.is_succ() && r.errs() == self.errs()
                + other.errs(),
            self.wf() && other.wf() ==> r.wf(),
    {
        match self.zip(other).res {
            Result::Ok((_, b)) => Valid::succeed(b),
            Result::Err(e) => Valid::from_validation_err(e),
        }
    }

    /// Replaces a success value; keeps a failure as it is.
    pub fn map_to<B>(self, b: B) -> (r: Valid<B, E>)
        ensures
            self.is_succ() ==> r.res == Result::<B, ValidationError<E>>::Ok(b),
            !self.is_succ() ==> !r.is_succ() && r.errs() == self.errs(),
            self.wf() ==> r.wf(),
    {
        match self.res {
            Result::Ok(_) => Valid::succeed(b),
            Result::Err(e) => Valid::from_validation_err(e),
        }
    }

    /// Discards a success value; keeps a failure as it is.
    pub fn unit(self) -> (r: Valid<(), E>)
        ensures
            self.is_succ() ==> r.is_succ(),
            !self.is_succ() ==> !r.is_succ() && r.errs() == self.errs(),
            self.wf() ==> r.wf(),
    {
        self.map_to(())
    }

    pub fn to_result(self) -> (r: Result<A, ValidationError<E>>)
        ensures
            r == self.res,
    {
        self.res
    }

    /// Pushes `name` in front of the trace of every cause.
    pub fn trace(self, name: &str) -> (r: Valid<A, E>)
        ensures
            self.is_succ() ==> r == self,
            !self.is_succ() ==> !r.is_succ() && r.errs().len() == self.errs().len() && forall|i: int|
                0 <= i < r.errs().len() ==> (#[trigger] r.errs()[i]).message
                    == self.errs()[i].message && r.errs()[i].trace_model() =~= seq![name@]
                    + self.errs()[i].trace_model(),
            self.wf() ==> r.wf(),
    {
        match self.res {
            Result::Ok(a) => Valid { res: Result::Ok(a) },
            Result::Err(e) => {
                let mut traced: Vec<Cause<E>> = Vec::new();
                let mut rest = e.causes;
                let ghost orig: Seq<Cause<E>> = rest@;
                while rest.len() > 0
                    invariant
                        traced@.len() + rest@.len() == orig.len(),
                        rest@ =~= orig.subrange(traced@.len() as int, orig.len() as int),
                        forall|j: int| 0 <= j < traced@.len() ==> (#[trigger] traced@[j]).message
                            == orig[j].message && traced@[j].trace_model() =~= seq![name@]
                            + orig[j].trace_model(),
                    decreases rest@.len(),
                {
                    let mut c = rest.remove(0);
                    proof {
                        assert(c == orig[traced@.len() as int]);
                    }
                    let ghost old_trace: Seq<Seq<char>> = c.trace_model();
                    c.trace.insert(0, String::from_str(name));
                    proof {
                        assert(c.trace_model() =~= seq![name@] + old_trace);
                    }
                    traced.push(c);
                }
                let r = Valid { res: Result::Err(ValidationError { causes: traced }) };
                proof {
                    assert(r.errs() =~= traced@);
                }
                r
            },
        }
    }
}


/// The observable content of a cause list: each cause's message and trace,
/// as character sequences.
pub open spec fn cause_views(cs: Seq<Cause<String>>) -> Seq<(Seq<char>, Seq<Seq<char>>)> {
    Seq::new(cs.len(), |i: int| (cs[i].message@, cs[i].trace_model()))
}

/// Causes with the given messages and empty traces.
pub open spec fn plain_causes(msgs: Seq<Seq<char>>) -> Seq<(Seq<char>, Seq<Seq<char>>)> {
    Seq::new(msgs.len(), |i: int| (msgs[i], Seq::<Seq<char>>::empty()))
}

/// `cause_views` distributes over concatenation.
pub proof fn lemma_cause_views_concat(a: Seq<Cause<String>>, b: Seq<Cause<String>>)
    ensures
        cause_views(a + b) == cause_views(a) + cause_views(b),
{
    assert(cause_views(a + b) =~= cause_views(a) + cause_views(b));
}

} // verus!
