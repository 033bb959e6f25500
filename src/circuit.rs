//! The multiplication relation `c = a * b`: one public input `c` and two
//! private witnesses `a` and `b`.
use vstd::prelude::*;
use crate::error::VortexError;
use crate::field::{field_modulus, FieldElement};

verus! {

/// The encodings of `xs`, one after another.
pub open spec fn concat_encodings(xs: Seq<FieldElement>) -> Seq<u8>
    decreases xs.len(),
{
    if xs.len() == 0 {
        Seq::empty()
    } else {
        concat_encodings(xs.drop_last()) + xs.last().spec_bytes()
    }
}

/// An instance of the relation. Values are not checked on construction:
/// whether they satisfy the relation is asked separately.
#[derive(Debug, Clone)]
pub struct Circuit {
    /// The public input.
    pub c: FieldElement,
    /// Private witness.
    pub a: FieldElement,
    /// Private witness.
    pub b: FieldElement,
}

impl Circuit {
    pub open spec fn wf(&self) -> bool {
        self.c.wf() && self.a.wf() && self.b.wf()
    }

    /// Whether the witness satisfies the single constraint.
    pub open spec fn holds(&self) -> bool {
        self.c@ == (self.a@ * self.b@) % field_modulus()
    }

    /// The circuit with all values zero: it fixes the constraint topology
    /// for setup, and its values mean nothing.
    pub fn empty() -> (r: Circuit)
        ensures
            r.wf(),
            r.c@ == 0 && r.a@ == 0 && r.b@ == 0,
            r.holds(),
    {
        Circuit { c: FieldElement::zero(), a: FieldElement::zero(), b: FieldElement::zero() }
    }

    /// A circuit with the given public input and witnesses; never fails.
    pub fn new(c: FieldElement, a: FieldElement, b: FieldElement) -> (r: Result<Circuit, VortexError>)
        ensures
            r matches Ok(x) && x.c == c && x.a == a && x.b == b,
    {
        Ok(Circuit { c, a, b })
    }

    /// The public inputs, in the order in which they are declared: `[c]`.
    pub fn get_public_inputs(&self) -> (r: Vec<FieldElement>)
        ensures
            r@.len() == 1,
            r@[0].spec_bytes() == self.c.spec_bytes(),
    {
        let mut r: Vec<FieldElement> = Vec::new();
        r.push(self.c.copied());
        r
    }

    /// The canonical encodings of the public inputs, concatenated in order.
    pub fn get_public_inputs_serialized(&self) -> (r: Result<Vec<u8>, VortexError>)
        ensures
            r matches Ok(v) && v@ == self.c.spec_bytes(),
    {
        let inputs = self.get_public_inputs();
        let mut out: Vec<u8> = Vec::new();
        let mut i: usize = 0;
        while i < inputs.len()
            invariant
                i <= inputs@.len(),
                out@ == concat_encodings(inputs@.subrange(0, i as int)),
            decreases inputs@.len() - i,
        {
            let bytes = inputs[i].as_bytes();
            let mut j: usize = 0;
            let ghost before = out@;
            while j < bytes.len()
                invariant
                    j <= bytes@.len(),
                    out@ == before + bytes@.subrange(0, j as int),
                decreases bytes@.len() - j,
            {
                out.push(bytes[j]);
                j = j + 1;
                assert(bytes@.subrange(0, j as int) =~= bytes@.subrange(0, j - 1) + seq![bytes@[j - 1]]);
            }
            assert(inputs@.subrange(0, i + 1).drop_last() =~= inputs@.subrange(0, i as int));
            assert(bytes@.subrange(0, bytes@.len() as int) =~= bytes@);
            i = i + 1;
        }
        assert(inputs@.subrange(0, 1).drop_last() =~= Seq::<FieldElement>::empty());
        assert(inputs@.subrange(0, inputs@.len() as int) =~= inputs@);
        assert(concat_encodings(Seq::<FieldElement>::empty()) =~= Seq::<u8>::empty());
        assert(out@ =~= self.c.spec_bytes());
        Ok(out)
    }

    /// Whether the values satisfy `c = a * b` modulo the field order.
    pub fn is_satisfied(&self) -> (r: bool)
        requires
            self.wf(),
        ensures
            r == self.holds(),
    {
        let product = self.a.mul(&self.b);
        self.c.equals(&product)
    }
}

} // verus!
