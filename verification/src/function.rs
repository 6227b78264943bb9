use vstd::prelude::*;
use std::marker::PhantomData;
use std::rc::Rc;
use crate::dom::{BoxDomain, Domain, PairDomain};
use crate::error::Fallible;

verus! {

/// A computation from `I` to `O` that may fail and need not be deterministic:
/// a mechanism draws randomness, so the same argument can give many results.
pub trait Mapping<I, O> {
    /// Whether the computation may be run on `arg`.
    spec fn defined(&self, arg: I) -> bool;

    /// Whether `res` is a possible outcome on `arg`.
    spec fn maps(&self, arg: I, res: Fallible<O>) -> bool;

    /// Runs the computation.
    fn call(&self, arg: &I) -> (res: Fallible<O>)
        requires
            self.defined(*arg),
        ensures
            self.maps(*arg, res),
    ;
}

/// A closure that reports its failures is a mapping.
impl<I, O, F: Fn(&I) -> Fallible<O>> Mapping<I, O> for F {
    open spec fn defined(&self, arg: I) -> bool {
        call_requires(*self, (&arg,))
    }

    open spec fn maps(&self, arg: I, res: Fallible<O>) -> bool {
        call_ensures(*self, (&arg,), res)
    }

    fn call(&self, arg: &I) -> (res: Fallible<O>) {
        self(arg)
    }
}

/// A closure that cannot fail, as a mapping whose outcomes are all successes.
pub struct Pure<G> {
    pub inner: G,
}

impl<I, O, G: Fn(&I) -> O> Mapping<I, O> for Pure<G> {
    open spec fn defined(&self, arg: I) -> bool {
        call_requires(self.inner, (&arg,))
    }

    open spec fn maps(&self, arg: I, res: Fallible<O>) -> bool {
        res matches Ok(value) && call_ensures(self.inner, (&arg,), value)
    }

    fn call(&self, arg: &I) -> (res: Fallible<O>) {
        Ok((self.inner)(arg))
    }
}

/// `Rc::clone` of the standard library: another handle to the same value.
///
/// The contract claims what its documentation says: the new handle points to
/// the allocation of the old one, so both hold the same value.
#[verifier::external_body]
pub(crate) fn share<T>(handle: &Rc<T>) -> (res: Rc<T>)
    ensures
        res == *handle,
{
    Rc::clone(handle)
}

/// A function from the carrier of one domain to the carrier of another.
///
/// The computation is held through a counted reference: a copy of the
/// function shares it.
pub struct Function<DI: Domain, DO: Domain, F> {
    pub function: Rc<F>,
    pub _marker: PhantomData<(DI, DO)>,
}

impl<DI: Domain, DO: Domain, G: Fn(&DI::Carrier) -> DO::Carrier> Function<DI, DO, Pure<G>> {
    /// Wraps a computation that cannot fail.
    pub fn new(function: G) -> (res: Self)
        ensures
            res.function.inner == function,
    {
        Function { function: Rc::new(Pure { inner: function }), _marker: PhantomData }
    }
}

impl<DI: Domain, DO: Domain, F: Mapping<DI::Carrier, DO::Carrier>> Function<DI, DO, F> {
    /// Whether the function may be evaluated on `arg`.
    pub open spec fn defined(&self, arg: DI::Carrier) -> bool {
        self.function.defined(arg)
    }

    /// Whether `res` is a possible outcome of the function on `arg`.
    pub open spec fn maps(&self, arg: DI::Carrier, res: Fallible<DO::Carrier>) -> bool {
        self.function.maps(arg, res)
    }

    /// Wraps a computation that reports its failures.
    pub fn new_fallible(function: F) -> (res: Self)
        ensures
            *res.function == function,
    {
        Function { function: Rc::new(function), _marker: PhantomData }
    }

    /// Evaluates the function.
    pub fn eval(&self, arg: &DI::Carrier) -> (res: Fallible<DO::Carrier>)
        requires
            self.defined(*arg),
        ensures
            self.maps(*arg, res),
    {
        self.function.call(arg)
    }

    /// Evaluates the function and hands the outcome over in a box.
    pub fn eval_ffi(&self, arg: &DI::Carrier) -> (res: Fallible<Box<DO::Carrier>>)
        requires
            self.defined(*arg),
        ensures
            match res {
                Ok(boxed) => self.maps(*arg, Ok(*boxed)),
                Err(e) => self.maps(*arg, Err(e)),
            },
    {
        match self.function.call(arg) {
            Ok(value) => Ok(Box::new(value)),
            Err(e) => Err(e),
        }
    }

    /// A copy that shares the computation.
    pub fn replicate(&self) -> (res: Self)
        ensures
            res == *self,
    {
        Function { function: share(&self.function), _marker: PhantomData }
    }
}

impl<DI: Domain, DO: Domain, F: Mapping<DI::Carrier, DO::Carrier>> Clone for Function<DI, DO, F> {
    /// A copy that shares the computation.
    fn clone(&self) -> (res: Self)
        ensures
            res == *self,
    {
        self.replicate()
    }
}

/// Two functions, the second applied to what the first returns.
pub struct Chained<DI: Domain, DX: Domain, DO: Domain, F0, F1> {
    pub first: Function<DI, DX, F0>,
    pub second: Function<DX, DO, F1>,
}

impl<DI, DX, DO, F0, F1> Mapping<DI::Carrier, DO::Carrier> for Chained<DI, DX, DO, F0, F1> where
    DI: Domain,
    DX: Domain,
    DO: Domain,
    F0: Mapping<DI::Carrier, DX::Carrier>,
    F1: Mapping<DX::Carrier, DO::Carrier>,
 {
    open spec fn defined(&self, arg: DI::Carrier) -> bool {
        &&& self.first.defined(arg)
        &&& forall|mid: DX::Carrier| self.first.maps(arg, Ok(mid)) ==> self.second.defined(mid)
    }

    open spec fn maps(&self, arg: DI::Carrier, res: Fallible<DO::Carrier>) -> bool {
        ||| exists|e: crate::error::Error| self.first.maps(arg, Err(e)) && res == Err::<DO::Carrier, _>(e)
        ||| exists|mid: DX::Carrier| self.first.maps(arg, Ok(mid)) && self.second.maps(mid, res)
    }

    fn call(&self, arg: &DI::Carrier) -> (res: Fallible<DO::Carrier>) {
        match self.first.eval(arg) {
            Ok(mid) => self.second.eval(&mid),
            Err(e) => Err(e),
        }
    }
}

impl<DI, DX, DO, F0, F1> Function<DI, DO, Chained<DI, DX, DO, F0, F1>> where
    DI: Domain,
    DX: Domain,
    DO: Domain,
    F0: Mapping<DI::Carrier, DX::Carrier>,
    F1: Mapping<DX::Carrier, DO::Carrier>,
 {
    /// The function that applies `function0` and then `function1`. It shares
    /// the computations of both and fails where either does.
    pub fn make_chain(function1: &Function<DX, DO, F1>, function0: &Function<DI, DX, F0>) -> (res:
        Self)
        ensures
            res.function.first == *function0,
            res.function.second == *function1,
            forall|arg: DI::Carrier|
                res.defined(arg) <==> function0.defined(arg) && forall|mid: DX::Carrier|
                    function0.maps(arg, Ok(mid)) ==> function1.defined(mid),
            forall|arg: DI::Carrier, out: Fallible<DO::Carrier>|
                res.maps(arg, out) <==> {
                    ||| exists|e: crate::error::Error|
                        function0.maps(arg, Err(e)) && out == Err::<DO::Carrier, _>(e)
                    ||| exists|mid: DX::Carrier|
                        function0.maps(arg, Ok(mid)) && function1.maps(mid, out)
                },
    {
        let chained = Chained { first: function0.replicate(), second: function1.replicate() };
        Function { function: Rc::new(chained), _marker: PhantomData }
    }
}

/// Two functions on the same argument, whose results are returned together.
pub struct Composed<DI: Domain, DO0: Domain, DO1: Domain, F0, F1> {
    pub first: Function<DI, DO0, F0>,
    pub second: Function<DI, DO1, F1>,
}

impl<DI, DO0, DO1, F0, F1> Mapping<DI::Carrier, (Box<DO0::Carrier>, Box<DO1::Carrier>)> for Composed<
    DI,
    DO0,
    DO1,
    F0,
    F1,
> where
    DI: Domain,
    DO0: Domain,
    DO1: Domain,
    F0: Mapping<DI::Carrier, DO0::Carrier>,
    F1: Mapping<DI::Carrier, DO1::Carrier>,
 {
    open spec fn defined(&self, arg: DI::Carrier) -> bool {
        self.first.defined(arg) && self.second.defined(arg)
    }

    open spec fn maps(
        &self,
        arg: DI::Carrier,
        res: Fallible<(Box<DO0::Carrier>, Box<DO1::Carrier>)>,
    ) -> bool {
        match res {
            Ok(pair) => self.first.maps(arg, Ok(*pair.0)) && self.second.maps(arg, Ok(*pair.1)),
            Err(e) => self.first.maps(arg, Err(e)) || (exists|v: DO0::Carrier|
                self.first.maps(arg, Ok(v)) && self.second.maps(arg, Err(e))),
        }
    }

    fn call(&self, arg: &DI::Carrier) -> (res: Fallible<(Box<DO0::Carrier>, Box<DO1::Carrier>)>) {
        match self.first.eval(arg) {
            Ok(res0) => match self.second.eval(arg) {
                Ok(res1) => Ok((Box::new(res0), Box::new(res1))),
                Err(e) => Err(e),
            },
            Err(e) => Err(e),
        }
    }
}

impl<DI, DO0, DO1, F0, F1> Function<
    DI,
    PairDomain<BoxDomain<DO0>, BoxDomain<DO1>>,
    Composed<DI, DO0, DO1, F0, F1>,
> where
    DI: Domain,
    DO0: Domain,
    DO1: Domain,
    F0: Mapping<DI::Carrier, DO0::Carrier>,
    F1: Mapping<DI::Carrier, DO1::Carrier>,
 {
    /// The function that evaluates both functions on its argument and returns
    /// the pair of their results, each in a box. It shares the computations
    /// of both and fails where either does.
    pub fn make_composition(function0: &Function<DI, DO0, F0>, function1: &Function<DI, DO1, F1>) -> (res:
        Self)
        ensures
            res.function.first == *function0,
            res.function.second == *function1,
            forall|arg: DI::Carrier|
                res.defined(arg) <==> function0.defined(arg) && function1.defined(arg),
            forall|arg: DI::Carrier, r0: DO0::Carrier, r1: DO1::Carrier|
                res.maps(arg, Ok((Box::new(r0), Box::new(r1)))) <==> function0.maps(arg, Ok(r0))
                    && function1.maps(arg, Ok(r1)),
            forall|arg: DI::Carrier, e: crate::error::Error|
                res.maps(arg, Err(e)) <==> function0.maps(arg, Err(e)) || (exists|v: DO0::Carrier|
                    function0.maps(arg, Ok(v)) && function1.maps(arg, Err(e))),
    {
        let composed = Composed { first: function0.replicate(), second: function1.replicate() };
        Function { function: Rc::new(composed), _marker: PhantomData }
    }
}

} // verus!
