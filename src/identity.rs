use vstd::prelude::*;
use vstd::string::*;

verus! {

/// The lowercase hexadecimal MD5 digest of a byte string.
pub uninterp spec fn md5_hex(bytes: Seq<u8>) -> Seq<char>;

/// Relies on md5::compute and the digest's LowerHex impl: two hex digits per digest byte.
#[verifier::external_body]
fn md5_lower_hex(bytes: &[u8]) -> (r: String)
    ensures
        r@ == md5_hex(bytes@),
        r@.len() == 32,
{
    format!("{:x}", md5::compute(bytes))
}

/// Relies on uuid::Uuid::new_v4 and its Display impl: a fresh random id in hyphenated form.
#[verifier::external_body]
pub(crate) fn new_uuid() -> (r: String)
    ensures
        r@.len() == 36,
{
    uuid::Uuid::new_v4().to_string()
}

/// The decimal digit character for `d < 10`.
pub open spec fn digit_char(d: nat) -> char {
    if d == 0 {
        '0'
    } else if d == 1 {
        '1'
    } else if d == 2 {
        '2'
    } else if d == 3 {
        '3'
    } else if d == 4 {
        '4'
    } else if d == 5 {
        '5'
    } else if d == 6 {
        '6'
    } else if d == 7 {
        '7'
    } else if d == 8 {
        '8'
    } else {
        '9'
    }
}

/// The shortest decimal representation of `n`.
pub open spec fn decimal(n: nat) -> Seq<char>
    decreases n,
{
    if n < 10 {
        seq![digit_char(n)]
    } else {
        decimal(n / 10).push(digit_char(n % 10))
    }
}

/// The digit `d < 10` as text.
fn digit_text(d: u32) -> (r: &'static str)
    requires
        d < 10,
    ensures
        r@ == seq![digit_char(d as nat)],
{
    proof {
        reveal_strlit("0123456789");
    }
    let r = "0123456789".substring_char(d as usize, d as usize + 1);
    assert(r@ =~= seq![digit_char(d as nat)]);
    r
}

/// `n` in decimal digits.
pub fn u32_decimal(n: u32) -> (r: String)
    ensures
        r@ == decimal(n as nat),
    decreases n,
{
    if n < 10 {
        String::from_str(digit_text(n))
    } else {
        let mut s = u32_decimal(n / 10);
        s.append(digit_text(n % 10));
        s
    }
}

/// Process identity stamped on every record: the machine and the run it came from.
pub struct Identity {
    pub data_center: String,
    pub process_id: String,
}

impl Identity {
    /// The identity of this run on a machine with hardware address `mac`:
    /// the machine id is the MD5 hex digest of the address bytes, the process id a fresh UUID.
    pub fn from_mac(mac: &[u8]) -> (r: Identity)
        ensures
            r.data_center@ == md5_hex(mac@),
            r.data_center@.len() == 32,
            r.process_id@.len() == 36,
    {
        Identity { data_center: md5_lower_hex(mac), process_id: new_uuid() }
    }

    /// An identity built from given parts.
    pub fn new(data_center: String, process_id: String) -> (r: Identity)
        ensures
            r.data_center == data_center,
            r.process_id == process_id,
    {
        Identity { data_center, process_id }
    }
}

} // verus!
