use vstd::prelude::*;
use vstd::string::StrSliceExecFns;
use vstd::string::StringSliceAdditionalSpecFns;

verus! {

/// Decimal ASCII digits of `n`, most significant first
pub open spec fn decimal(n: nat) -> Seq<u8>
    decreases n,
{
    if n < 10 {
        seq![(48 + n) as u8]
    } else {
        decimal(n / 10).push((48 + n % 10) as u8)
    }
}

/// Convert to a byte representation (CP-437)
pub trait DisplayBytes {
    spec fn display_view(&self) -> Seq<u8>;

    fn display_bytes(&self) -> (r: Vec<u8>)
        ensures
            r@ == self.display_view(),
    ;
}

/// Decimal digits of `n`
pub fn decimal_bytes(n: usize) -> (r: Vec<u8>)
    ensures
        r@ == decimal(n as nat),
    decreases n,
{
    if n < 10 {
        let mut v: Vec<u8> = Vec::new();
        v.push((n as u8) + 48);
        assert(v@ =~= decimal(n as nat));
        v
    } else {
        let mut v = decimal_bytes(n / 10);
        v.push(((n % 10) as u8) + 48);
        v
    }
}

impl DisplayBytes for usize {
    open spec fn display_view(&self) -> Seq<u8> {
        decimal(*self as nat)
    }

    /// Convert an integer to an ASCII string in decimal
    fn display_bytes(&self) -> (r: Vec<u8>) {
        decimal_bytes(*self)
    }
}

impl DisplayBytes for u8 {
    open spec fn display_view(&self) -> Seq<u8> {
        decimal(*self as nat)
    }

    /// Convert an integer to an ASCII string in decimal
    fn display_bytes(&self) -> (r: Vec<u8>) {
        decimal_bytes(*self as usize)
    }
}

/// Appends `b` to `out`
pub fn push_bytes(out: &mut Vec<u8>, b: &[u8])
    ensures
        final(out)@ == old(out)@ + b@,
{
    let mut k: usize = 0;
    while k < b.len()
        invariant
            k <= b@.len(),
            out@ == old(out)@ + b@.subrange(0, k as int),
        decreases b@.len() - k,
    {
        out.push(b[k]);
        k = k + 1;
        assert(out@ =~= old(out)@ + b@.subrange(0, k as int));
    }
    assert(b@.subrange(0, k as int) =~= b@);
}

/// Appends the bytes of `s` to `out`
pub fn push_str(out: &mut Vec<u8>, s: &str)
    ensures
        final(out)@ == old(out)@ + s.spec_bytes(),
{
    let b = s.as_bytes_vec();
    push_bytes(out, b.as_slice());
}

/// Appends the decimal digits of `n` to `out`
pub fn push_num(out: &mut Vec<u8>, n: usize)
    ensures
        final(out)@ == old(out)@ + decimal(n as nat),
{
    let b = decimal_bytes(n);
    push_bytes(out, b.as_slice());
}

} // verus!
