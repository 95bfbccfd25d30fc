//! Secrets, whose text is only ever shown masked.
use vstd::prelude::*;

verus! {

/// A secret string, such as a password.
#[derive(Clone, Default)]
pub struct SecretConf {
    raw: String,
}

impl View for SecretConf {
    type V = Seq<char>;

    closed spec fn view(&self) -> Seq<char> {
        self.raw@
    }
}

/// `n` asterisks.
pub open spec fn mask(n: nat) -> Seq<char> {
    Seq::new(n, |i: int| '*')
}

impl SecretConf {
    /// The secret `s`, kept verbatim.
    pub fn new(s: &str) -> (r: Self)
        ensures
            r@ == s@,
    {
        SecretConf { raw: s.to_owned() }
    }

    /// The secret itself: the one way to read it back.
    pub fn expose(&self) -> (r: &str)
        ensures
            r@ == self@,
    {
        self.raw.as_str()
    }

    /// The masked form: one asterisk for each character of the secret.
    pub fn to_string(&self) -> (r: String)
        ensures
            r@ == mask(self@.len()),
    {
        let n = self.raw.as_str().unicode_len();
        let mut out = String::new();
        let mut i: usize = 0;
        while i < n
            invariant
                i <= n,
                out@ == mask(i as nat),
            decreases n - i,
        {
            out.append("*");
            proof {
                reveal_strlit("*");
            }
            assert(out@ =~= mask((i + 1) as nat));
            i = i + 1;
        }
        assert(out@ =~= mask(n as nat));
        out
    }
}

/// The masked form tells nothing of a secret but its length: two secrets of
/// the same length are shown alike, and every character shown is an asterisk.
pub proof fn lemma_mask_shows_length_only(a: SecretConf, b: SecretConf)
    requires
        a@.len() == b@.len(),
    ensures
        mask(a@.len()) == mask(b@.len()),
        mask(a@.len()).len() == a@.len(),
        forall|i: int| 0 <= i < a@.len() ==> #[trigger] mask(a@.len())[i] == '*',
{
}

} // verus!
