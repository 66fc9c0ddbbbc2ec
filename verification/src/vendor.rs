//! Which vendor protocol a name selects.
use vstd::prelude::*;

verus! {

/// A supported smart-servo brand.
#[derive(Debug, Clone, Copy, PartialEq, Eq, Structural)]
pub enum Vendor {
    FashionStar,
}

/// ASCII lower case of one byte; other bytes are unchanged.
pub open spec fn ascii_lower(b: u8) -> u8 {
    if 65 <= b <= 90 {
        (b + 32) as u8
    } else {
        b
    }
}

/// ASCII lower case of a byte string.
pub open spec fn ascii_lowercase(s: Seq<u8>) -> Seq<u8> {
    s.map_values(|b: u8| ascii_lower(b))
}

/// `fashionstar`
pub open spec fn name_fashionstar() -> Seq<u8> {
    seq![102u8, 97, 115, 104, 105, 111, 110, 115, 116, 97, 114]
}

/// `fashion-star`
pub open spec fn name_fashion_star() -> Seq<u8> {
    seq![102u8, 97, 115, 104, 105, 111, 110, 45, 115, 116, 97, 114]
}

/// `fs`
pub open spec fn name_fs() -> Seq<u8> {
    seq![102u8, 115]
}

/// The vendor a name selects, ignoring ASCII case: `fashionstar`,
/// `fashion-star` and `fs` select FashionStar; any other name none.
pub open spec fn spec_vendor_from_name(name: Seq<u8>) -> Option<Vendor> {
    let l = ascii_lowercase(name);
    if l == name_fashionstar() || l == name_fashion_star() || l == name_fs() {
        Some(Vendor::FashionStar)
    } else {
        None
    }
}

/// `name` equals `target` when ASCII letters of `name` are taken in lower case.
fn matches_lowercase(name: &[u8], target: &[u8]) -> (r: bool)
    ensures
        r == (ascii_lowercase(name@) == target@),
{
    if name.len() != target.len() {
        proof {
            assert(ascii_lowercase(name@).len() != target@.len());
        }
        return false;
    }
    let mut k: usize = 0;
    while k < name.len()
        invariant
            k <= name@.len(),
            name@.len() == target@.len(),
            forall|j: int| 0 <= j < k ==> ascii_lower(#[trigger] name@[j]) == target@[j],
        decreases name@.len() - k,
    {
        let b = name[k];
        let lower: u8 = if 65 <= b && b <= 90 {
            b + 32
        } else {
            b
        };
        if lower != target[k] {
            proof {
                assert(ascii_lowercase(name@)[k as int] != target@[k as int]);
            }
            return false;
        }
        k = k + 1;
    }
    assert(ascii_lowercase(name@) =~= target@);
    true
}

/// The vendor a name selects, ignoring ASCII case.
pub fn vendor_from_name(name: &[u8]) -> (r: Option<Vendor>)
    ensures
        r == spec_vendor_from_name(name@),
{
    let fashionstar: [u8; 11] = [102, 97, 115, 104, 105, 111, 110, 115, 116, 97, 114];
    let fashion_star: [u8; 12] = [102, 97, 115, 104, 105, 111, 110, 45, 115, 116, 97, 114];
    let fs: [u8; 2] = [102, 115];
    assert(fashionstar@ =~= name_fashionstar());
    assert(fashion_star@ =~= name_fashion_star());
    assert(fs@ =~= name_fs());
    if matches_lowercase(name, &fashionstar) || matches_lowercase(name, &fashion_star)
        || matches_lowercase(name, &fs) {
        Some(Vendor::FashionStar)
    } else {
        None
    }
}

} // verus!
