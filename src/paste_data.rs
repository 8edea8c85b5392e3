//! The content of an upload, and the size check made before it is read.
use vstd::prelude::*;

use crate::error::PasteError;
use crate::paste_id::push_char;

verus! {

/// Largest declared length of a form body `paste=<content>`: the content
/// ceiling of 4 MiB and the six characters of the field name and `=`.
pub const MAX_FORM_SIZE: u64 = 4194310;

/// The content of an upload.
pub struct PasteData {
    content: String,
}

impl View for PasteData {
    type V = Seq<char>;

    closed spec fn view(&self) -> Seq<char> {
        self.content@
    }
}

impl PasteData {
    pub fn new(content: String) -> (r: PasteData)
        ensures
            r@ == content@,
    {
        PasteData { content }
    }

    pub fn get_content_cloned(&self) -> (r: String)
        ensures
            r@ == self@,
    {
        self.content.clone()
    }

    pub fn into_content(self) -> (r: String)
        ensures
            r@ == self@,
    {
        self.content
    }

    /// Checks the lengths a request declares for its body, before any of it is
    /// read: one over `MAX_FORM_SIZE` refuses the request.
    pub fn check_declared_lengths(declared: &Vec<u64>) -> (r: Result<(), PasteError>)
        ensures
            r is Ok <==> forall|i: int| 0 <= i < declared@.len() ==> declared@[i] <= MAX_FORM_SIZE,
            r is Err ==> r == Err::<(), PasteError>(PasteError::PayloadTooLarge),
    {
        let mut i: usize = 0;
        while i < declared.len()
            invariant
                i <= declared@.len(),
                forall|j: int| 0 <= j < i ==> declared@[j] <= MAX_FORM_SIZE,
            decreases declared@.len() - i,
        {
            if declared[i] > MAX_FORM_SIZE {
                return Err(PasteError::PayloadTooLarge);
            }
            i = i + 1;
        }
        Ok(())
    }
}

broadcast use vstd::string::group_string_axioms;

/// The name of the form field that carries the content, with its `=`.
pub open spec fn field_marker() -> Seq<char> {
    seq!['p', 'a', 's', 't', 'e', '=']
}

/// `paste=` starts at position `i` of `s`.
pub open spec fn marker_at(s: Seq<char>, i: int) -> bool {
    0 <= i && i + 6 <= s.len() && s.subrange(i, i + 6) == field_marker()
}

/// `paste=` starts at position `i` of `s` and nowhere before.
pub open spec fn first_marker_at(s: Seq<char>, i: int) -> bool {
    marker_at(s, i) && forall|j: int| 0 <= j < i ==> !#[trigger] marker_at(s, j)
}

/// The characters of `s`, in order.
fn chars_of(s: &str) -> (r: Vec<char>)
    ensures
        r@ == s@,
{
    let mut out: Vec<char> = Vec::new();
    for c in it: s.chars()
        invariant
            it.seq() == s@,
            out@ == s@.subrange(0, it.index() as int),
    {
        out.push(c);
        assert(out@ =~= s@.subrange(0, it.index() + 1));
    }
    assert(out@ =~= s@);
    out
}

fn marker_at_exec(cs: &Vec<char>, i: usize) -> (r: bool)
    requires
        i < cs@.len(),
    ensures
        r == marker_at(cs@, i as int),
{
    if cs.len() - i < 6 {
        return false;
    }
    let r = cs[i] == 'p' && cs[i + 1] == 'a' && cs[i + 2] == 's' && cs[i + 3] == 't'
        && cs[i + 4] == 'e' && cs[i + 5] == '=';
    proof {
        let sub = cs@.subrange(i as int, i + 6);
        if r {
            assert(sub =~= field_marker());
        } else if sub == field_marker() {
            assert(sub[0] == 'p' && sub[1] == 'a' && sub[2] == 's');
            assert(sub[3] == 't' && sub[4] == 'e' && sub[5] == '=');
        }
    }
    r
}

/// The content of a form body: what follows the first `paste=`, or `None`
/// when the body has no such field.
pub fn paste_field(body: &str) -> (r: Option<String>)
    ensures
        r is Some <==> exists|i: int| marker_at(body@, i),
        forall|i: int| #[trigger] first_marker_at(body@, i) ==> (r matches Some(t) && t@
            == body@.subrange(i + 6, body@.len() as int)),
{
    let cs = chars_of(body);
    let mut i: usize = 0;
    while i < cs.len()
        invariant
            cs@ == body@,
            i <= cs@.len(),
            forall|j: int| 0 <= j < i ==> !#[trigger] marker_at(body@, j),
        decreases cs@.len() - i,
    {
        if marker_at_exec(&cs, i) {
            let mut out = String::new();
            let mut k: usize = i + 6;
            while k < cs.len()
                invariant
                    cs@ == body@,
                    i + 6 <= k <= cs@.len(),
                    out@ == body@.subrange(i + 6, k as int),
                decreases cs@.len() - k,
            {
                push_char(&mut out, cs[k]);
                assert(out@ =~= body@.subrange(i + 6, k + 1));
                k = k + 1;
            }
            proof {
                assert forall|j: int| #[trigger] first_marker_at(body@, j) implies j == i by {
                    if j < i {
                    } else if j > i {
                        assert(marker_at(body@, i as int));
                    }
                }
            }
            return Some(out);
        }
        i = i + 1;
    }
    proof {
        assert forall|j: int| !#[trigger] marker_at(body@, j) by {
            if 0 <= j < body@.len() {
            }
        }
    }
    None
}

} // verus!
