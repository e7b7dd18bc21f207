//! A single neuron: weights, a bias and an activation function.
use vstd::prelude::*;
use vstd::std_specs::ops::{AddSpec, MulSpec};
use crate::matrix::{
    add_mul_total, default_is_fixed, is_default, product, product_defined, total, total_defined, Matrix, MatrixError,
    MatrixModel,
};

verus! {

/// Computing `activation(sum of all cells of w · x + bias)` involves no undefined step:
/// either every sum and product of elements is defined, or the operations follow their
/// specifications and each step of the product, of its sum and of adding the bias is
/// defined (for integers: nothing overflows).
pub open spec fn forward_defined<T: Default + core::ops::Add<Output = T> + core::ops::Mul<Output = T>>(
    w: MatrixModel<T>,
    x: MatrixModel<T>,
    bias: T,
) -> bool {
    ||| add_mul_total::<T>()
    ||| {
        &&& T::obeys_add_spec()
        &&& T::obeys_mul_spec()
        &&& forall|z: T|
            #[trigger] is_default(z) ==> {
                &&& product_defined(z, w, x)
                &&& total_defined(product(z, w, x).elems)
                &&& total(product(z, w, x).elems).add_req(bias)
            }
    }
}

/// One computational unit: an `n × 1` weight matrix, a bias and an activation.
pub struct Neuron<T, F> {
    weights: Matrix<T>,
    bias: T,
    func: F,
}

impl<T: Copy, F: Fn(T) -> T> Neuron<T, F> {
    /// The weight matrix.
    pub closed spec fn spec_weights(&self) -> Matrix<T> {
        self.weights
    }

    /// The bias.
    pub closed spec fn spec_bias(&self) -> T {
        self.bias
    }

    /// The activation function.
    pub closed spec fn spec_func(&self) -> F {
        self.func
    }

    /// Stores the three parts as given; shapes are checked by `forward`.
    pub fn new(weights: Matrix<T>, bias: T, func: F) -> (r: Neuron<T, F>)
        ensures
            r.spec_weights() == weights,
            r.spec_bias() == bias,
            r.spec_func() == func,
    {
        Neuron { weights, bias, func }
    }

    /// The weight matrix.
    pub fn get_weights(&self) -> (r: &Matrix<T>)
        ensures
            *r == self.spec_weights(),
    {
        &self.weights
    }

    /// The bias.
    pub fn get_bias(&self) -> (r: T)
        ensures
            r == self.spec_bias(),
    {
        self.bias
    }

    /// The activation function.
    pub fn get_func(&self) -> (r: &F)
        ensures
            *r == self.spec_func(),
    {
        &self.func
    }

    /// Replaces the whole weight matrix.
    pub fn set_weights(&mut self, weights: Matrix<T>)
        ensures
            final(self).spec_weights() == weights,
            final(self).spec_bias() == old(self).spec_bias(),
            final(self).spec_func() == old(self).spec_func(),
    {
        self.weights = weights;
    }

    /// Replaces the bias.
    pub fn set_bias(&mut self, bias: T)
        ensures
            final(self).spec_weights() == old(self).spec_weights(),
            final(self).spec_bias() == bias,
            final(self).spec_func() == old(self).spec_func(),
    {
        self.bias = bias;
    }

    /// `activation(sum of all cells of weights · inputs + bias)`; each cell of the product
    /// starts at `T::default()`.
    pub fn forward(&self, inputs: &Matrix<T>) -> (r: Result<T, MatrixError>)
        where
            T: Default + core::ops::Add<Output = T> + core::ops::Mul<Output = T>,
        requires
            self.spec_weights().wf(),
            inputs.wf(),
            self.spec_weights()@.rows * inputs@.cols <= usize::MAX,
            default_is_fixed::<T>(),
            self.spec_weights()@.cols == inputs@.rows ==> forward_defined(
                self.spec_weights()@,
                inputs@,
                self.spec_bias(),
            ),
            forall|x: T| self.spec_func().requires((x,)),
        ensures
            r is Err <==> self.spec_weights()@.cols != inputs@.rows,
            r is Err ==> r->Err_0 == MatrixError::ShapeMismatch,
            r is Ok ==> forall|z: T|
                #[trigger] is_default(z) ==> ((T::obeys_add_spec() && T::obeys_mul_spec())
                    ==> self.spec_func().ensures(
                    (total(product(z, self.spec_weights()@, inputs@).elems).add_spec(
                        self.spec_bias(),
                    ),),
                    r->Ok_0,
                )),
    {
        let ghost w = self.weights@;
        let ghost spec_ok = T::obeys_add_spec() && T::obeys_mul_spec();
        match self.weights.dot(inputs) {
            Err(e) => Err(e),
            Ok(p) => {
                // the value each cell of `p` started from
                let start = T::default();
                let ghost z = start;
                assert(is_default(z));
                assert(spec_ok ==> p@ == product(z, w, inputs@));
                assert(!add_mul_total::<T>() ==> spec_ok && total_defined(product(z, w, inputs@).elems));
                let s = p.sum();
                let weighted_sum = s + self.bias;
                assert(self.func.requires((weighted_sum,)) == self.spec_func().requires((weighted_sum,)));
                let out = (self.func)(weighted_sum);
                assert(spec_ok ==> self.spec_func().ensures(
                    (total(product(z, w, inputs@).elems).add_spec(self.spec_bias()),),
                    out,
                ));
                Ok(out)
            },
        }
    }
}

} // verus!
