use vstd::prelude::*;

verus! {

/// Content identity of an addon: a digest of the package file's bytes.
#[derive(Debug)]
pub struct FileHash(pub Vec<u8>);

/// Why a text is not a file hash.
#[derive(Clone, Copy, Debug, PartialEq, Eq, Structural)]
pub enum HashParseError {
    /// The text has odd length or a character that is no hex digit.
    InvalidHex,
}

impl View for FileHash {
    type V = Seq<u8>;

    open spec fn view(&self) -> Seq<u8> {
        self.0@
    }
}

/// The lower-case hex digit of a value below 16.
pub open spec fn hex_digit(n: u8) -> char {
    seq!['0', '1', '2', '3', '4', '5', '6', '7', '8', '9', 'a', 'b', 'c', 'd', 'e', 'f'][n as int]
}

/// `t` is the lower-case hex text of `b`: two digits per byte, high nibble first.
pub open spec fn is_hex_of(t: Seq<char>, b: Seq<u8>) -> bool {
    &&& t.len() == 2 * b.len()
    &&& forall|i: int|
        0 <= i < b.len() ==> #[trigger] t[2 * i] == hex_digit(b[i] / 16) && t[2 * i + 1] == hex_digit(
            b[i] % 16,
        )
}

pub open spec fn is_hex_char(c: char) -> bool {
    ('0' <= c <= '9') || ('a' <= c <= 'f') || ('A' <= c <= 'F')
}

/// The value of a hex digit, either case.
pub open spec fn hex_value(c: char) -> int {
    if '0' <= c <= '9' {
        c as int - '0' as int
    } else if 'a' <= c <= 'f' {
        c as int - 'a' as int + 10
    } else {
        c as int - 'A' as int + 10
    }
}

/// Text that decodes to bytes: even length, hex digits only.
pub open spec fn is_hex_text(t: Seq<char>) -> bool {
    &&& t.len() % 2 == 0
    &&& forall|i: int| 0 <= i < t.len() ==> is_hex_char(#[trigger] t[i])
}

/// `b` is what the hex text `t` decodes to.
pub open spec fn decodes_to(t: Seq<char>, b: Seq<u8>) -> bool {
    &&& 2 * b.len() == t.len()
    &&& forall|i: int|
        0 <= i < b.len() ==> #[trigger] b[i] == 16 * hex_value(t[2 * i]) + hex_value(t[2 * i + 1])
}

/// Relies on hex::encode: lower-case digits, two per byte, high nibble first.
#[verifier::external_body]
fn encode_hex(b: &Vec<u8>) -> (r: String)
    ensures
        is_hex_of(r@, b@),
{
    hex::encode(b)
}

/// Relies on hex::decode: it fails on odd length or on a byte that is no hex
/// digit of either case, and otherwise joins each pair of digits into a byte.
#[verifier::external_body]
fn decode_hex(s: &str) -> (r: Option<Vec<u8>>)
    ensures
        r is Some <==> is_hex_text(s@),
        r matches Some(v) ==> decodes_to(s@, v@),
{
    hex::decode(s).ok()
}

impl FileHash {
    /// The hash as lower-case hex text.
    pub fn to_hex(&self) -> (r: String)
        ensures
            is_hex_of(r@, self@),
    {
        encode_hex(&self.0)
    }

    /// Reads a hash back from hex text of either case.
    pub fn from_str(s: &str) -> (r: Result<FileHash, HashParseError>)
        ensures
            r is Ok <==> is_hex_text(s@),
            r matches Ok(h) ==> decodes_to(s@, h@),
            r matches Err(e) ==> e == HashParseError::InvalidHex,
    {
        match decode_hex(s) {
            Some(v) => Ok(FileHash(v)),
            None => Err(HashParseError::InvalidHex),
        }
    }

    /// A copy of the hash.
    pub fn duplicate(&self) -> (r: FileHash)
        ensures
            r@ == self@,
    {
        FileHash(self.0.clone())
    }

    /// Whether two hashes are the same bytes.
    pub fn same_as(&self, other: &FileHash) -> (r: bool)
        ensures
            r == (self@ == other@),
    {
        if self.0.len() != other.0.len() {
            return false;
        }
        let mut i: usize = 0;
        while i < self.0.len()
            invariant
                self.0.len() == other.0.len(),
                i <= self.0.len(),
                forall|j: int| 0 <= j < i ==> self.0@[j] == other.0@[j],
            decreases self.0.len() - i,
        {
            if self.0[i] != other.0[i] {
                return false;
            }
            i = i + 1;
        }
        proof {
            assert(self.0@ =~= other.0@);
        }
        true
    }
}

} // verus!
