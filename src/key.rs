use vstd::prelude::*;

verus! {

/// A 32-byte public key or account address.
#[derive(Clone, Copy, Debug)]
pub struct Key {
    pub bytes: [u8; 32],
}

impl View for Key {
    type V = Seq<u8>;

    open spec fn view(&self) -> Seq<u8> {
        self.bytes@
    }
}

impl Key {
    /// Whether two keys hold the same bytes.
    pub fn same_as(&self, other: &Key) -> (r: bool)
        ensures
            r == (self@ == other@),
    {
        let mut i: usize = 0;
        while i < 32
            invariant
                0 <= i <= 32,
                self@.len() == 32,
                other@.len() == 32,
                forall|j: int| 0 <= j < i ==> self@[j] == other@[j],
            decreases 32 - i,
        {
            if self.bytes[i] != other.bytes[i] {
                return false;
            }
            i = i + 1;
        }
        assert(self@ =~= other@);
        true
    }
}

/// The identifier under which the counter program is deployed
/// (`89xQFfYcAGqoYHJZa93gSTZLxY5wSwxSf94cWeXVcbbj` in base58).
pub fn program_id() -> (r: Key)
    ensures
        r@ == seq![
            106u8, 77, 24, 210, 209, 109, 52, 19, 125, 155, 21, 86, 33, 22, 145, 87,
            210, 157, 109, 253, 143, 117, 198, 166, 136, 74, 153, 24, 92, 6, 121, 94,
        ],
{
    let r = Key {
        bytes: [
            106, 77, 24, 210, 209, 109, 52, 19, 125, 155, 21, 86, 33, 22, 145, 87,
            210, 157, 109, 253, 143, 117, 198, 166, 136, 74, 153, 24, 92, 6, 121, 94,
        ],
    };
    assert(r@ =~= seq![
        106u8, 77, 24, 210, 209, 109, 52, 19, 125, 155, 21, 86, 33, 22, 145, 87,
        210, 157, 109, 253, 143, 117, 198, 166, 136, 74, 153, 24, 92, 6, 121, 94,
    ]);
    r
}

} // verus!
