//! The buffer of packed acceleration values that the IMU fills, one sample
//! (x, y, z) at a time, until a package is full.
use vstd::prelude::*;

use crate::axl::{AXL_SZ, SAMPLE_SZ};
use crate::fir::{spec_tick, Decimation};
use crate::wire::A16;

verus! {

#[verifier::external_type_specification]
#[verifier::external_body]
#[verifier::reject_recursive_types(T)]
pub struct ExHeaplessVec<T, const N: usize>(heapless::Vec<T, N>);

/// The values held by a buffer of acceleration values.
pub uninterp spec fn axl_values(v: heapless::Vec<u16, AXL_SZ>) -> Seq<u16>;

/// Buffer of packed acceleration values.
pub type VecAxl = heapless::Vec<u16, AXL_SZ>;

/// `heapless::Vec::new`: an empty vector.
#[verifier::external_body]
fn vec_axl_new() -> (v: VecAxl)
    ensures
        axl_values(v) == Seq::<u16>::empty(),
{
    heapless::Vec::new()
}

/// `heapless::Vec::len`: the number of values held, which never exceeds the
/// capacity.
#[verifier::external_body]
fn vec_axl_len(v: &VecAxl) -> (n: usize)
    ensures
        n == axl_values(*v).len(),
        n <= AXL_SZ,
{
    v.len()
}

/// `heapless::Vec::push`: appends the value when there is room, and hands it
/// back otherwise.
#[verifier::external_body]
fn vec_axl_push(v: &mut VecAxl, x: u16) -> (r: Result<(), u16>)
    ensures
        r == (if axl_values(*old(v)).len() < AXL_SZ {
            Ok::<(), u16>(())
        } else {
            Err::<(), u16>(x)
        }),
        axl_values(*final(v)) == (if axl_values(*old(v)).len() < AXL_SZ {
            axl_values(*old(v)).push(x)
        } else {
            axl_values(*old(v))
        }),
{
    v.push(x)
}

/// `heapless::Vec::clear`: removes all values.
#[verifier::external_body]
fn vec_axl_clear(v: &mut VecAxl)
    ensures
        axl_values(*final(v)) == Seq::<u16>::empty(),
{
    v.clear()
}

/// `heapless::Vec::clone`: a copy holding the same values.
#[verifier::external_body]
fn vec_axl_clone(v: &VecAxl) -> (c: VecAxl)
    ensures
        axl_values(c) == axl_values(*v),
{
    v.clone()
}

/// `heapless::Vec::as_slice`: the values held.
#[verifier::external_body]
pub(crate) fn vec_axl_as_slice(v: &VecAxl) -> (s: &[u16])
    ensures
        s@ == axl_values(*v),
{
    v.as_slice()
}

/// Errors when sampling into the buffer.
#[derive(Debug, Clone, Copy, PartialEq, Eq, Structural)]
pub enum Error {
    BufFull,
}

/// Buffer with values ready to be sent. Only `sample` grows it, always by
/// `SAMPLE_SZ` values, so that it always holds whole samples. The filtered
/// acceleration is decimated: only every `DECIMATE`'th sample (counted by
/// `decimation`, from the first after a reset) is put in the buffer.
pub struct ImuBuf {
    pub axl: VecAxl,
    pub decimation: Decimation,
}

impl ImuBuf {
    /// The values in the buffer.
    pub open spec fn values(&self) -> Seq<u16> {
        axl_values(self.axl)
    }

    /// The buffer holds whole samples only, never more than `AXL_SZ` values.
    pub open spec fn wf(&self) -> bool {
        &&& self.values().len() % (SAMPLE_SZ as nat) == 0
        &&& self.values().len() <= AXL_SZ
        &&& self.decimation.wf()
    }

    /// An empty buffer; the first sample is kept.
    pub fn new() -> (b: ImuBuf)
        ensures
            b.wf(),
            b.values() == Seq::<u16>::empty(),
            b.decimation.spec_m() == 0,
    {
        ImuBuf { axl: vec_axl_new(), decimation: Decimation::new() }
    }

    /// Take the values of the buffer, leaving it empty (the decimation goes
    /// on counting).
    pub fn take_buf(&mut self) -> (r: (VecAxl,))
        requires
            old(self).wf(),
        ensures
            axl_values(r.0) == old(self).values(),
            final(self).values() == Seq::<u16>::empty(),
            final(self).decimation == old(self).decimation,
            final(self).wf(),
    {
        let b = vec_axl_clone(&self.axl);
        vec_axl_clear(&mut self.axl);
        (b,)
    }

    /// Empty the buffer and restart the decimation.
    pub fn reset(&mut self)
        ensures
            final(self).values() == Seq::<u16>::empty(),
            final(self).decimation.spec_m() == 0,
            final(self).wf(),
    {
        vec_axl_clear(&mut self.axl);
        self.decimation.reset();
    }

    /// Free room in the buffer, in whole samples.
    pub fn free(&self) -> (n: usize)
        requires
            self.wf(),
        ensures
            n == ((AXL_SZ - self.values().len()) as nat) / (SAMPLE_SZ as nat),
    {
        let len = vec_axl_len(&self.axl);
        (AXL_SZ - len) / SAMPLE_SZ
    }

    /// Whether the buffer is full.
    pub fn is_full(&self) -> (r: bool)
        ensures
            r == (self.values().len() == AXL_SZ),
    {
        vec_axl_len(&self.axl) == AXL_SZ
    }

    /// Number of samples in the buffer.
    pub fn len(&self) -> (n: usize)
        ensures
            n == self.values().len() / (SAMPLE_SZ as nat),
    {
        vec_axl_len(&self.axl) / SAMPLE_SZ
    }

    /// Capacity of the buffer, in samples.
    pub fn capacity(&self) -> (n: usize)
        ensures
            n == AXL_SZ / SAMPLE_SZ,
    {
        AXL_SZ / SAMPLE_SZ
    }

    /// Count one IMU sample, unless the buffer is full. `x`, `y`, `z` are the
    /// packed filtered acceleration at this sample; they are added to the
    /// buffer when the decimation gives an output for this sample.
    pub fn sample(&mut self, x: A16, y: A16, z: A16) -> (r: Result<(), Error>)
        requires
            old(self).wf(),
        ensures
            final(self).wf(),
            old(self).values().len() == AXL_SZ ==> r == Err::<(), Error>(Error::BufFull)
                && final(self).values() == old(self).values()
                && final(self).decimation == old(self).decimation,
            old(self).values().len() < AXL_SZ ==> {
                &&& r == Ok::<(), Error>(())
                &&& final(self).decimation.spec_m() == spec_tick(old(self).decimation.spec_m()).1
                &&& final(self).values() == if spec_tick(old(self).decimation.spec_m()).0 {
                    old(self).values().push(x.0).push(y.0).push(z.0)
                } else {
                    old(self).values()
                }
            },
    {
        let len = vec_axl_len(&self.axl);
        if len == AXL_SZ {
            return Err(Error::BufFull);
        }
        if self.decimation.tick() {
            let r1 = vec_axl_push(&mut self.axl, x.0);
            let r2 = vec_axl_push(&mut self.axl, y.0);
            let r3 = vec_axl_push(&mut self.axl, z.0);
        }
        Ok(())
    }
}

} // verus!
