//! The raw register protocol's message shapes, as plain data: requests to
//! read or write device registers and the response bytes. The surrounding
//! system ships them through the framing codec; this core only carries them.
use vstd::prelude::*;

verus! {

/// What a raw register request does.
#[derive(Clone, Copy, PartialEq, Eq, Structural, Debug)]
pub enum SnsRawRegisterOp {
    Read,
    Write,
}

/// One raw register access: an operation, the register address and its
/// width, the data and its width, and how long to wait after the access.
#[derive(Clone, PartialEq, Debug)]
pub struct SnsRawRegisterReq {
    pub op: Option<i32>,
    pub addr_len: Option<u32>,
    pub data_len: Option<u32>,
    pub duration: Option<u32>,
    pub addr: Option<u32>,
    pub data: Option<Vec<u8>>,
}

impl Default for SnsRawRegisterReq {
    /// An empty request: every field absent.
    fn default() -> (r: Self)
        ensures
            r.op is None,
            r.addr_len is None,
            r.data_len is None,
            r.duration is None,
            r.addr is None,
            r.data is None,
    {
        SnsRawRegisterReq {
            op: None,
            addr_len: None,
            data_len: None,
            duration: None,
            addr: None,
            data: None,
        }
    }
}

/// A sequence of raw register accesses, performed in order.
#[derive(Clone, PartialEq, Debug)]
pub struct SnsRawRegisterSequenceReq {
    pub reqs: Vec<SnsRawRegisterReq>,
}

impl Default for SnsRawRegisterSequenceReq {
    /// An empty sequence.
    fn default() -> (r: Self)
        ensures
            r.reqs@ == Seq::<SnsRawRegisterReq>::empty(),
    {
        SnsRawRegisterSequenceReq { reqs: Vec::new() }
    }
}

/// The bytes a raw register read returned.
#[derive(Clone, PartialEq, Debug)]
pub struct SnsRawRegisterRsp {
    pub data: Vec<u8>,
}

impl Default for SnsRawRegisterRsp {
    /// An empty response.
    fn default() -> (r: Self)
        ensures
            r.data@ == Seq::<u8>::empty(),
    {
        SnsRawRegisterRsp { data: Vec::new() }
    }
}

} // verus!
