use vstd::prelude::*;

verus! {

/// A command as the bytes of the program.
pub trait ToU8Seq {
    fn to_u8_seq(&self) -> Vec<u8>;
}

}
