use vstd::prelude::*;
use vstd::slice::slice_subrange;

verus! {

pub const SIGNATURE_SIZE: usize = 65;

pub const SIGNATURE_R_SIZE: usize = 32;

pub const SIGNATURE_S_SIZE: usize = 32;

/// Offset of the recovery byte, after `r` and `s`.
pub const SIGNATURE_V_INDEX: usize = 64;

/// What Electrum notation adds to the recovery byte.
pub const ELECTRUM_V_OFFSET: u8 = 27;

/// A signature encoded as its `r`, `s` and `v` components, in that order.
pub struct Signature([u8; SIGNATURE_SIZE]);

impl View for Signature {
    type V = Seq<u8>;

    closed spec fn view(&self) -> Seq<u8> {
        self.0@
    }
}

/// The bytes of the empty (invalid) signature.
pub open spec fn empty_signature() -> Seq<u8> {
    Seq::new(SIGNATURE_SIZE as nat, |i: int| 0u8)
}

impl Default for Signature {
    /// The empty (invalid) signature: all bytes zero.
    fn default() -> (r: Signature)
        ensures
            r@ == empty_signature(),
    {
        let r = Signature([0u8; SIGNATURE_SIZE]);
        assert(r@ =~= empty_signature());
        r
    }
}

impl Signature {
    /// A signature always holds `SIGNATURE_SIZE` bytes.
    pub proof fn lemma_len(&self)
        ensures
            self@.len() == SIGNATURE_SIZE,
    {
    }

    /// The `r` component.
    pub fn r(&self) -> (out: &[u8])
        ensures
            out@.len() == SIGNATURE_R_SIZE,
            out@ == self@.subrange(0, SIGNATURE_R_SIZE as int),
    {
        proof {
            assert(self@.len() == SIGNATURE_SIZE);
        }
        slice_subrange(self.0.as_slice(), 0, SIGNATURE_R_SIZE)
    }

    /// The `s` component.
    pub fn s(&self) -> (out: &[u8])
        ensures
            out@.len() == SIGNATURE_S_SIZE,
            out@ == self@.subrange(SIGNATURE_R_SIZE as int, SIGNATURE_V_INDEX as int),
    {
        proof {
            assert(self@.len() == SIGNATURE_SIZE);
        }
        slice_subrange(self.0.as_slice(), SIGNATURE_R_SIZE, SIGNATURE_R_SIZE + SIGNATURE_S_SIZE)
    }

    /// The recovery byte.
    pub fn v(&self) -> (out: u8)
        ensures
            out == self@[SIGNATURE_V_INDEX as int],
    {
        self.0[SIGNATURE_V_INDEX]
    }

    /// The bytes of the signature with the recovery byte in Electrum notation.
    pub fn into_electrum(self) -> (out: [u8; SIGNATURE_SIZE])
        requires
            self@[SIGNATURE_V_INDEX as int] + ELECTRUM_V_OFFSET <= u8::MAX,
        ensures
            out@.len() == SIGNATURE_SIZE,
            out@.subrange(0, SIGNATURE_V_INDEX as int) == self@.subrange(
                0,
                SIGNATURE_V_INDEX as int,
            ),
            out@[SIGNATURE_V_INDEX as int] == self@[SIGNATURE_V_INDEX as int] + ELECTRUM_V_OFFSET,
            out@ == self@.update(
                SIGNATURE_V_INDEX as int,
                (self@[SIGNATURE_V_INDEX as int] + ELECTRUM_V_OFFSET) as u8,
            ),
    {
        let mut bytes = self.0;
        bytes[SIGNATURE_V_INDEX] = bytes[SIGNATURE_V_INDEX] + ELECTRUM_V_OFFSET;
        assert(bytes@.subrange(0, SIGNATURE_V_INDEX as int) =~= self@.subrange(
            0,
            SIGNATURE_V_INDEX as int,
        ));
        bytes
    }

    /// Reads a signature whose recovery byte is in Electrum notation. Data of
    /// another length, or with a recovery byte under the Electrum offset, gives
    /// the empty (invalid) signature.
    pub fn from_electrum(data: &[u8]) -> (out: Signature)
        ensures
            out@.len() == SIGNATURE_SIZE,
            if data@.len() != SIGNATURE_SIZE || data@[SIGNATURE_V_INDEX as int]
                < ELECTRUM_V_OFFSET {
                out@ == empty_signature()
            } else {
                &&& out@.subrange(0, SIGNATURE_V_INDEX as int) == data@.subrange(
                    0,
                    SIGNATURE_V_INDEX as int,
                )
                &&& out@[SIGNATURE_V_INDEX as int] == data@[SIGNATURE_V_INDEX as int]
                    - ELECTRUM_V_OFFSET
                &&& out@ == data@.update(
                    SIGNATURE_V_INDEX as int,
                    (data@[SIGNATURE_V_INDEX as int] - ELECTRUM_V_OFFSET) as u8,
                )
            },
    {
        if data.len() != SIGNATURE_SIZE || data[SIGNATURE_V_INDEX] < ELECTRUM_V_OFFSET {
            return Signature::default();
        }
        let mut sig = [0u8; SIGNATURE_SIZE];
        let mut i: usize = 0;
        while i < SIGNATURE_SIZE
            invariant
                data@.len() == SIGNATURE_SIZE,
                i <= SIGNATURE_SIZE,
                sig@.len() == SIGNATURE_SIZE,
                forall|k: int| 0 <= k < i ==> sig@[k] == data@[k],
            decreases SIGNATURE_SIZE - i,
        {
            sig[i] = data[i];
            i = i + 1;
        }
        sig[SIGNATURE_V_INDEX] = sig[SIGNATURE_V_INDEX] - ELECTRUM_V_OFFSET;
        let out = Signature(sig);
        assert(out@.subrange(0, SIGNATURE_V_INDEX as int) =~= data@.subrange(
            0,
            SIGNATURE_V_INDEX as int,
        ));
        assert(out@ =~= data@.update(
            SIGNATURE_V_INDEX as int,
            (data@[SIGNATURE_V_INDEX as int] - ELECTRUM_V_OFFSET) as u8,
        ));
        out
    }
}

} // verus!
