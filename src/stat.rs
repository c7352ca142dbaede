use vstd::prelude::*;

verus! {

/// The digit for `d` (below 16): `0`-`9`, then `a`-`f`.
pub open spec fn digit_char(d: nat) -> char {
    if d < 10 {
        (('0' as nat) + d) as char
    } else {
        (('a' as nat) + d - 10) as char
    }
}

/// `n` written in `base`, most significant digit first, without leading
/// zeros (zero itself is one digit).
pub open spec fn digits_in_base(n: nat, base: nat) -> Seq<char>
    recommends
        2 <= base <= 16,
    decreases n,
    when base >= 2
    via digits_in_base_decreases
{
    if n < base {
        seq![digit_char(n)]
    } else {
        digits_in_base(n / base, base).push(digit_char(n % base))
    }
}

#[via_fn]
proof fn digits_in_base_decreases(n: nat, base: nat) {
    if base >= 2 && n >= base {
        assert(n / base < n) by (nonlinear_arith)
            requires
                base >= 2,
                n >= base,
        ;
    }
}

/// `s` right-aligned in a field of `width` characters, filled with spaces on
/// the left; a longer `s` is left as it is.
pub open spec fn right_aligned(s: Seq<char>, width: nat) -> Seq<char> {
    if s.len() < width {
        Seq::new((width - s.len()) as nat, |i: int| ' ') + s
    } else {
        s
    }
}

/// The nine-character permission string of `mode`: for owner, group and
/// others, `r`, `w` and `x` where the bit is set and `-` where it is not.
pub open spec fn permission_text(mode: u32) -> Seq<char> {
    Seq::new(
        9,
        |i: int|
            if mode & (256u32 >> (i as u32)) == 0 {
                '-'
            } else if i % 3 == 0 {
                'r'
            } else if i % 3 == 1 {
                'w'
            } else {
                'x'
            },
    )
}

/// What the hash function of the file-hashing library returns for `data`.
pub uninterp spec fn xxh3_of(data: Seq<u8>) -> u64;

/// Relies on `xxhash_rust::xxh3::xxh3_64`: the 64-bit XXH3 hash of `data`
/// with the default seed, which depends on the bytes alone.
#[verifier::external_body]
fn xxh3_64(data: &[u8]) -> (r: u64)
    ensures
        r == xxh3_of(data@),
{
    xxhash_rust::xxh3::xxh3_64(data)
}

/// Relies on `String::push`: it appends one character.
#[verifier::external_body]
fn push_char(text: &mut String, c: char)
    ensures
        final(text)@ == old(text)@.push(c),
{
    text.push(c)
}

/// The digit for `d`.
fn digit(d: u64) -> (r: char)
    requires
        d < 16,
    ensures
        r == digit_char(d as nat),
{
    if d < 10 {
        ((48 + d) as u8) as char
    } else {
        ((97 + d - 10) as u8) as char
    }
}

/// `value` written in `base`, most significant digit first.
fn digits(value: u64, base: u64) -> (r: Vec<char>)
    requires
        2 <= base <= 16,
    ensures
        r@ == digits_in_base(value as nat, base as nat),
{
    let mut n: u64 = value;
    let mut low: Vec<char> = Vec::new();
    while n >= base
        invariant
            2 <= base <= 16,
            digits_in_base(value as nat, base as nat) == digits_in_base(n as nat, base as nat)
                + low@,
        decreases n,
    {
        let d: char = digit(n % base);
        proof {
            assert(digits_in_base(n as nat, base as nat) == digits_in_base(
                (n / base) as nat,
                base as nat,
            ).push(d));
            assert(digits_in_base((n / base) as nat, base as nat).push(d) + low@ =~= digits_in_base(
                (n / base) as nat,
                base as nat,
            ) + (seq![d] + low@));
        }
        let ghost before = low@;
        low.insert(0, d);
        assert(low@ =~= seq![d] + before);
        n = n / base;
    }
    let mut all: Vec<char> = Vec::new();
    all.push(digit(n));
    all.append(&mut low);
    all
}

/// Appends every character of `chars` to `text`.
fn push_all(text: &mut String, chars: &Vec<char>)
    ensures
        final(text)@ == old(text)@ + chars@,
{
    let mut i: usize = 0;
    while i < chars.len()
        invariant
            i <= chars@.len(),
            text@ == old(text)@ + chars@.take(i as int),
        decreases chars@.len() - i,
    {
        push_char(text, chars[i]);
        assert(chars@.take(i + 1) =~= chars@.take(i as int).push(chars@[i as int]));
        i += 1;
    }
    assert(chars@.take(i as int) =~= chars@);
}

/// The hash of a file's contents.
#[derive(Clone, Copy, Debug, PartialEq, Eq, Structural)]
pub struct Hash(pub u64);

impl Hash {
    /// The hash of `data`.
    pub fn of_bytes(data: &[u8]) -> (r: Hash)
        ensures
            r.0 == xxh3_of(data@),
    {
        Hash(xxh3_64(data))
    }

    /// The hash in lower-case hexadecimal, right-aligned in 17 characters.
    pub fn to_text(&self) -> (r: String)
        ensures
            r@ == right_aligned(digits_in_base(self.0 as nat, 16), 17),
    {
        let hex: Vec<char> = digits(self.0, 16);
        let mut text: String = String::new();
        let mut padding: usize = 0;
        let width: usize = if hex.len() < 17 {
            17 - hex.len()
        } else {
            0
        };
        while padding < width
            invariant
                padding <= width,
                text@ == Seq::new(padding as nat, |i: int| ' '),
            decreases width - padding,
        {
            push_char(&mut text, ' ');
            assert(text@ =~= Seq::new((padding + 1) as nat, |i: int| ' '));
            padding += 1;
        }
        push_all(&mut text, &hex);
        assert(text@ =~= right_aligned(digits_in_base(self.0 as nat, 16), 17));
        text
    }
}

/// The size of a file in bytes.
#[derive(Clone, Copy, Debug, PartialEq, Eq, Structural)]
pub struct FileSize(pub u64);

impl FileSize {
    /// The size in decimal, followed by `B`.
    pub fn to_text(&self) -> (r: String)
        ensures
            r@ == digits_in_base(self.0 as nat, 10).push('B'),
    {
        let decimal: Vec<char> = digits(self.0, 10);
        let mut text: String = String::new();
        push_all(&mut text, &decimal);
        push_char(&mut text, 'B');
        assert(text@ =~= digits_in_base(self.0 as nat, 10).push('B'));
        text
    }
}

/// The mode bits of a file.
#[derive(Clone, Copy, Debug, PartialEq, Eq, Structural)]
pub struct FileMode(pub u32);

impl FileMode {
    /// The permission bits as `rwxrwxrwx`, with `-` for each bit not set.
    pub fn to_text(&self) -> (r: String)
        ensures
            r@ == permission_text(self.0),
    {
        let mut text: String = String::new();
        let mut i: u32 = 0;
        while i < 9
            invariant
                i <= 9,
                text@ == permission_text(self.0).take(i as int),
            decreases 9 - i,
        {
            let c: char = if self.0 & (256u32 >> i) == 0 {
                '-'
            } else if i % 3 == 0 {
                'r'
            } else if i % 3 == 1 {
                'w'
            } else {
                'x'
            };
            push_char(&mut text, c);
            assert(text@ =~= permission_text(self.0).take(i + 1));
            i += 1;
        }
        assert(text@ =~= permission_text(self.0));
        text
    }
}

} // verus!
