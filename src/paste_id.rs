//! Random fixed-alphabet tokens: paste identifiers and deletion keys.
use vstd::prelude::*;

verus! {

/// Number of symbols in the identifier alphabet (digits, upper and lower case letters).
pub const ALPHABET_SIZE: usize = 62;

/// Length of a paste identifier.
pub const SIZE: usize = 24;

/// Length of a deletion key.
pub const KEY_SIZE: usize = 16;

/// A character of the 62-symbol alphabet `[0-9A-Za-z]`.
pub open spec fn is_base62(c: char) -> bool {
    ('0' <= c && c <= '9') || ('A' <= c && c <= 'Z') || ('a' <= c && c <= 'z')
}

/// Every character of `s` is in the alphabet.
pub open spec fn all_base62(s: Seq<char>) -> bool {
    forall|i: int| 0 <= i < s.len() ==> #[trigger] is_base62(s[i])
}

/// `s` is a syntactically valid paste identifier: exactly 24 alphabet characters.
pub open spec fn is_valid_id(s: Seq<char>) -> bool {
    s.len() == SIZE && all_base62(s)
}

/// `s` has the shape of a deletion key: exactly 16 alphabet characters.
pub open spec fn is_valid_key(s: Seq<char>) -> bool {
    s.len() == KEY_SIZE && all_base62(s)
}

/// The `i`-th symbol of the alphabet `0-9`, `A-Z`, `a-z`.
pub open spec fn base62_symbol_spec(i: int) -> char {
    if i < 10 {
        ((i + 48) as u8) as char
    } else if i < 36 {
        ((i + 55) as u8) as char
    } else {
        ((i + 61) as u8) as char
    }
}

/// Returns the `i`-th symbol of the alphabet.
pub fn base62_symbol(i: usize) -> (c: char)
    requires
        i < ALPHABET_SIZE,
    ensures
        c == base62_symbol_spec(i as int),
        is_base62(c),
{
    let v: u8 = i as u8;
    if v < 10 {
        (v + 48) as char
    } else if v < 36 {
        (v + 55) as char
    } else {
        (v + 61) as char
    }
}

/// Relies on rand::random: one value drawn from the thread-local generator.
#[verifier::external_body]
fn random_usize() -> (r: usize) {
    rand::random::<usize>()
}

/// Relies on String::push: appends one character at the end.
#[verifier::external_body]
pub(crate) fn push_char(s: &mut String, c: char)
    ensures
        final(s)@ == old(s)@.push(c),
{
    s.push(c)
}

/// The token whose `j`-th character is the alphabet symbol picked by the
/// `j`-th draw, taken modulo the alphabet size.
pub fn token_from_draws(draws: &Vec<usize>) -> (r: String)
    ensures
        r@.len() == draws@.len(),
        forall|j: int| 0 <= j < draws@.len() ==> r@[j] == base62_symbol_spec(
            (#[trigger] draws@[j] % 62) as int,
        ),
        all_base62(r@),
{
    let mut token = String::new();
    let mut n: usize = 0;
    while n < draws.len()
        invariant
            n <= draws@.len(),
            token@.len() == n,
            forall|j: int| 0 <= j < n ==> token@[j] == base62_symbol_spec(
                (#[trigger] draws@[j] % 62) as int,
            ),
            all_base62(token@),
        decreases draws@.len() - n,
    {
        let c = base62_symbol(draws[n] % ALPHABET_SIZE);
        push_char(&mut token, c);
        n = n + 1;
    }
    token
}

/// `size` values drawn from the random generator.
fn draw(size: usize) -> (r: Vec<usize>)
    ensures
        r@.len() == size,
{
    let mut draws: Vec<usize> = Vec::with_capacity(size);
    let mut n: usize = 0;
    while n < size
        invariant
            n <= size,
            draws@.len() == n,
        decreases size - n,
    {
        draws.push(random_usize());
        n = n + 1;
    }
    draws
}

/// A random token of `size` characters, each drawn from the alphabet.
pub fn generate_token(size: usize) -> (r: String)
    ensures
        r@.len() == size,
        all_base62(r@),
{
    token_from_draws(&draw(size))
}

/// A fresh random deletion key of 16 alphabet characters.
pub fn generate_deletion_key() -> (r: String)
    ensures
        is_valid_key(r@),
{
    generate_token(KEY_SIZE)
}

/// Returns `true` if `id` is a valid paste identifier and `false` otherwise.
pub fn valid_id(id: &str) -> (r: bool)
    ensures
        r == is_valid_id(id@),
{
    if id.unicode_len() != SIZE {
        return false;
    }
    let mut i: usize = 0;
    while i < SIZE
        invariant
            id@.len() == SIZE,
            i <= SIZE,
            forall|j: int| 0 <= j < i ==> #[trigger] is_base62(id@[j]),
        decreases SIZE - i,
    {
        let c = id.get_char(i);
        if !(('a' <= c && c <= 'z') || ('A' <= c && c <= 'Z') || ('0' <= c && c <= '9')) {
            assert(!is_base62(id@[i as int]));
            return false;
        }
        i = i + 1;
    }
    true
}

/// A _probably_ unique paste identifier.
pub struct PasteID {
    id: String,
}

impl View for PasteID {
    type V = Seq<char>;

    closed spec fn view(&self) -> Seq<char> {
        self.id@
    }
}

impl PasteID {
    /// An identifier of `size` random alphabet characters.
    pub fn new_with_size(size: usize) -> (r: PasteID)
        ensures
            r@.len() == size,
            all_base62(r@),
    {
        PasteID::from_draws(&draw(size))
    }

    /// The identifier spelled by `draws`, one alphabet symbol per draw.
    pub fn from_draws(draws: &Vec<usize>) -> (r: PasteID)
        ensures
            r@.len() == draws@.len(),
            forall|j: int| 0 <= j < draws@.len() ==> r@[j] == base62_symbol_spec(
                (#[trigger] draws@[j] % 62) as int,
            ),
            all_base62(r@),
    {
        PasteID { id: token_from_draws(draws) }
    }

    /// Generates a _probably_ unique identifier of 24 characters.
    pub fn new() -> (r: PasteID)
        ensures
            is_valid_id(r@),
    {
        PasteID::new_with_size(SIZE)
    }

    /// The identifier as an owned string.
    pub fn id(self) -> (r: String)
        ensures
            r@ == self@,
    {
        self.id
    }

    /// The identifier as a string slice.
    pub fn as_str(&self) -> (r: &str)
        ensures
            r@ == self@,
    {
        self.id.as_str()
    }

    /// Accepts a path segment that is a valid identifier; otherwise hands the
    /// segment back as the error.
    pub fn from_param<'a>(param: &'a str) -> (r: Result<PasteID, &'a str>)
        ensures
            is_valid_id(param@) ==> r is Ok && r->Ok_0@ == param@,
            !is_valid_id(param@) ==> r is Err && r->Err_0 == param,
    {
        if valid_id(param) {
            Ok(PasteID { id: param.to_owned() })
        } else {
            Err(param)
        }
    }
}

} // verus!
