use vstd::prelude::*;

verus! {

// ----------------------------------------------------------------------------
// Characters of hexadecimal and decimal renderings.
// ----------------------------------------------------------------------------

/// The lowercase hexadecimal digit for a value below sixteen.
pub open spec fn hex_digit_char(n: int) -> char
    recommends
        0 <= n < 16,
{
    if n == 0 {
        '0'
    } else if n == 1 {
        '1'
    } else if n == 2 {
        '2'
    } else if n == 3 {
        '3'
    } else if n == 4 {
        '4'
    } else if n == 5 {
        '5'
    } else if n == 6 {
        '6'
    } else if n == 7 {
        '7'
    } else if n == 8 {
        '8'
    } else if n == 9 {
        '9'
    } else if n == 10 {
        'a'
    } else if n == 11 {
        'b'
    } else if n == 12 {
        'c'
    } else if n == 13 {
        'd'
    } else if n == 14 {
        'e'
    } else {
        'f'
    }
}

/// The decimal digit for a value below ten.
pub open spec fn dec_digit_char(n: int) -> char
    recommends
        0 <= n < 10,
{
    hex_digit_char(n)
}

/// The lowercase hexadecimal rendering of a byte sequence: two digits per
/// byte, high nibble first.
pub open spec fn hex_chars(bs: Seq<u8>) -> Seq<char> {
    Seq::new(
        bs.len() * 2,
        |i: int|
            if i % 2 == 0 {
                hex_digit_char((bs[i / 2] as int) / 16)
            } else {
                hex_digit_char((bs[i / 2] as int) % 16)
            },
    )
}

/// The rendering of an address: a `0x` prefix, then the bytes in hex.
pub open spec fn addr_hex_chars(bs: Seq<u8>) -> Seq<char> {
    seq!['0', 'x'] + hex_chars(bs)
}

/// The decimal rendering of a natural number, most significant digit first,
/// with no leading zeros (a single `0` for zero).
pub open spec fn dec_chars(n: nat) -> Seq<char>
    decreases n,
{
    if n < 10 {
        seq![dec_digit_char(n as int)]
    } else {
        dec_chars(n / 10).push(dec_digit_char((n % 10) as int))
    }
}

// ----------------------------------------------------------------------------
// Addresses.
// ----------------------------------------------------------------------------

/// An account address on the chain: twenty bytes, held as plain values.
#[derive(Clone, Copy)]
pub struct Addr {
    pub bytes: [u8; 20],
}

/// Relies on hex::encode: each input byte becomes exactly two lowercase
/// hexadecimal digits, high nibble first.
#[verifier::external_body]
fn hex_encode_bytes(bytes: &[u8; 20]) -> (r: String)
    ensures
        r@ == hex_chars(bytes@),
{
    hex::encode(bytes)
}

impl View for Addr {
    type V = Seq<u8>;

    open spec fn view(&self) -> Seq<u8> {
        self.bytes@
    }
}

impl Addr {
    pub fn new(bytes: [u8; 20]) -> (a: Addr)
        ensures
            a@ == bytes@,
    {
        Addr { bytes }
    }

    /// Whether two addresses hold the same twenty bytes.
    pub fn eq_addr(&self, other: &Addr) -> (r: bool)
        ensures
            r == (self@ == other@),
    {
        let mut i: usize = 0;
        while i < 20
            invariant
                0 <= i <= 20,
                forall|j: int| 0 <= j < i ==> self.bytes@[j] == other.bytes@[j],
            decreases 20 - i,
        {
            if self.bytes[i] != other.bytes[i] {
                return false;
            }
            i += 1;
        }
        proof {
            assert(self@ =~= other@);
        }
        true
    }

    /// The `0x`-prefixed lowercase hexadecimal rendering of the address.
    pub fn hex_string(&self) -> (s: String)
        ensures
            s@ == addr_hex_chars(self@),
    {
        let mut s = String::from_str("0x");
        proof {
            reveal_strlit("0x");
        }
        let h = hex_encode_bytes(&self.bytes);
        s.append(h.as_str());
        proof {
            assert(s@ =~= addr_hex_chars(self@));
        }
        s
    }
}

// ----------------------------------------------------------------------------
// Decimal rendering of identifiers.
// ----------------------------------------------------------------------------

/// The one-character string for a decimal digit.
fn dec_digit_str(d: u64) -> (s: &'static str)
    requires
        d < 10,
    ensures
        s@ == seq![dec_digit_char(d as int)],
{
    if d == 0 {
        proof {
            reveal_strlit("0");
            assert("0"@ =~= seq![dec_digit_char(0)]);
        }
        "0"
    } else if d == 1 {
        proof {
            reveal_strlit("1");
            assert("1"@ =~= seq![dec_digit_char(1)]);
        }
        "1"
    } else if d == 2 {
        proof {
            reveal_strlit("2");
            assert("2"@ =~= seq![dec_digit_char(2)]);
        }
        "2"
    } else if d == 3 {
        proof {
            reveal_strlit("3");
            assert("3"@ =~= seq![dec_digit_char(3)]);
        }
        "3"
    } else if d == 4 {
        proof {
            reveal_strlit("4");
            assert("4"@ =~= seq![dec_digit_char(4)]);
        }
        "4"
    } else if d == 5 {
        proof {
            reveal_strlit("5");
            assert("5"@ =~= seq![dec_digit_char(5)]);
        }
        "5"
    } else if d == 6 {
        proof {
            reveal_strlit("6");
            assert("6"@ =~= seq![dec_digit_char(6)]);
        }
        "6"
    } else if d == 7 {
        proof {
            reveal_strlit("7");
            assert("7"@ =~= seq![dec_digit_char(7)]);
        }
        "7"
    } else if d == 8 {
        proof {
            reveal_strlit("8");
            assert("8"@ =~= seq![dec_digit_char(8)]);
        }
        "8"
    } else {
        proof {
            reveal_strlit("9");
            assert("9"@ =~= seq![dec_digit_char(9)]);
        }
        "9"
    }
}

/// The characters of a digit list read back to front: the list holds the
/// least significant digit first, the rendering wants it last.
pub open spec fn rev_digit_chars(ds: Seq<u64>) -> Seq<char> {
    Seq::new(ds.len(), |i: int| dec_digit_char(ds[ds.len() - 1 - i] as int))
}

/// The decimal rendering of a number, as a string.
pub fn u64_to_dec_string(n: u64) -> (s: String)
    ensures
        s@ == dec_chars(n as nat),
{
    let mut digits: Vec<u64> = Vec::new();
    let mut m: u64 = n;
    while m >= 10
        invariant
            dec_chars(n as nat) =~= dec_chars(m as nat) + rev_digit_chars(digits@),
            forall|k: int| 0 <= k < digits@.len() ==> digits@[k] < 10,
        decreases m,
    {
        let d = m % 10;
        let ghost prev = digits@;
        digits.push(d);
        m = m / 10;
        proof {
            assert(rev_digit_chars(prev.push(d)) =~= seq![dec_digit_char(d as int)]
                + rev_digit_chars(prev));
        }
    }
    let ghost mid = digits@;
    digits.push(m);
    proof {
        assert(rev_digit_chars(mid.push(m)) =~= seq![dec_digit_char(m as int)]
            + rev_digit_chars(mid));
        assert(dec_chars(n as nat) =~= rev_digit_chars(digits@));
    }
    let mut s = String::new();
    let ghost total = digits@;
    let mut i: usize = digits.len();
    while i > 0
        invariant
            i <= digits@.len(),
            digits@ == total,
            forall|k: int| 0 <= k < total.len() ==> total[k] < 10,
            s@ =~= rev_digit_chars(total).take(total.len() - i),
        decreases i,
    {
        i = i - 1;
        let piece = dec_digit_str(digits[i]);
        s.append(piece);
        proof {
            assert(s@ =~= rev_digit_chars(total).take(total.len() - i));
        }
    }
    proof {
        assert(rev_digit_chars(total).take(total.len() as int) =~= rev_digit_chars(total));
    }
    s
}

// ----------------------------------------------------------------------------
// The three mirrored entities.
// ----------------------------------------------------------------------------

/// A registered collection: a sequential index rendered in decimal, and the
/// contract address registered under it.
pub struct NFTCollection {
    pub id: String,
    pub nft_collection: Addr,
}

/// The mathematical value of an `NFTCollection`.
#[verifier::ext_equal]
pub ghost struct CollectionV {
    pub id: Seq<char>,
    pub nft_collection: Seq<u8>,
}

impl View for NFTCollection {
    type V = CollectionV;

    open spec fn view(&self) -> CollectionV {
        CollectionV { id: self.id@, nft_collection: self.nft_collection@ }
    }
}

/// A mirrored marketplace item. `price == 0` means "not currently listed";
/// the three metadata fields stay absent unless something outside this crate
/// fills them.
pub struct Item {
    pub item_id: u64,
    pub nft_contract: Addr,
    pub token_id: u64,
    pub owner: Addr,
    pub price: u64,
    pub name: Option<String>,
    pub description: Option<String>,
    pub image: Option<String>,
}

/// The mathematical value of an `Item`.
#[verifier::ext_equal]
pub ghost struct ItemV {
    pub item_id: u64,
    pub nft_contract: Seq<u8>,
    pub token_id: u64,
    pub owner: Seq<u8>,
    pub price: u64,
    pub name: Option<Seq<char>>,
    pub description: Option<Seq<char>>,
    pub image: Option<Seq<char>>,
}

/// The characters of an optional string.
pub open spec fn opt_str_v(s: Option<String>) -> Option<Seq<char>> {
    match s {
        Some(t) => Some(t@),
        None => None,
    }
}

impl View for Item {
    type V = ItemV;

    open spec fn view(&self) -> ItemV {
        ItemV {
            item_id: self.item_id,
            nft_contract: self.nft_contract@,
            token_id: self.token_id,
            owner: self.owner@,
            price: self.price,
            name: opt_str_v(self.name),
            description: opt_str_v(self.description),
            image: opt_str_v(self.image),
        }
    }
}

/// A copy of an optional string with the same characters.
fn clone_opt_str(s: &Option<String>) -> (r: Option<String>)
    ensures
        opt_str_v(r) == opt_str_v(*s),
{
    match s {
        Some(t) => Some(t.clone()),
        None => None,
    }
}

impl Clone for Item {
    fn clone(&self) -> (r: Self)
        ensures
            r@ == self@,
    {
        Item {
            item_id: self.item_id,
            nft_contract: self.nft_contract,
            token_id: self.token_id,
            owner: self.owner,
            price: self.price,
            name: clone_opt_str(&self.name),
            description: clone_opt_str(&self.description),
            image: clone_opt_str(&self.image),
        }
    }
}

impl Clone for NFTCollection {
    fn clone(&self) -> (r: Self)
        ensures
            r@ == self@,
    {
        NFTCollection { id: self.id.clone(), nft_collection: self.nft_collection }
    }
}

/// A recorded offer. At most one document exists for one
/// (item, offerer, seller) combination at any time.
#[derive(Clone, Copy)]
pub struct Offer {
    pub item_id: u64,
    pub offerer: Addr,
    pub seller: Addr,
    pub price: u64,
    pub is_accepted: bool,
}

/// The mathematical value of an `Offer`.
#[verifier::ext_equal]
pub ghost struct OfferV {
    pub item_id: u64,
    pub offerer: Seq<u8>,
    pub seller: Seq<u8>,
    pub price: u64,
    pub is_accepted: bool,
}

impl View for Offer {
    type V = OfferV;

    open spec fn view(&self) -> OfferV {
        OfferV {
            item_id: self.item_id,
            offerer: self.offerer@,
            seller: self.seller@,
            price: self.price,
            is_accepted: self.is_accepted,
        }
    }
}

} // verus!
