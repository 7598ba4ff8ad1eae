//! Content digests, `algorithm:encoded`.
use vstd::prelude::*;
use vstd::string::StrSliceExecFns;

verus! {

/// How many characters of a digest's encoded part stand for it in messages.
pub const SHORT_DIGEST_LEN: usize = 21;

/// A lowercase letter or a digit.
pub open spec fn is_component_char(c: char) -> bool {
    'a' <= c <= 'z' || '0' <= c <= '9'
}

/// What may stand between two components of an algorithm.
pub open spec fn is_separator(c: char) -> bool {
    c == '+' || c == '.' || c == '_' || c == '-'
}

/// What an encoded part is made of.
pub open spec fn is_encoded_char(c: char) -> bool {
    is_component_char(c) || 'A' <= c <= 'Z' || c == '=' || c == '_' || c == '-'
}

/// A hexadecimal digit, in lower case.
pub open spec fn is_lower_hex(c: char) -> bool {
    '0' <= c <= '9' || 'a' <= c <= 'f'
}

/// Whether `s` names an algorithm: components of lowercase letters and digits, none of them empty, and
/// one separator between each two.
pub open spec fn is_algorithm(s: Seq<char>) -> bool {
    &&& s.len() > 0
    &&& forall|i: int|
        0 <= i < s.len() ==> is_component_char(#[trigger] s[i]) || is_separator(s[i])
    &&& !is_separator(s[0])
    &&& !is_separator(s.last())
    &&& forall|i: int, j: int|
        0 <= i < j < s.len() && is_separator(#[trigger] s[i]) && is_separator(#[trigger] s[j])
            ==> i + 1 < j
}

/// How many hexadecimal digits a digest has, where the algorithm is one of the SHA family.
pub open spec fn hex_len(algorithm: Seq<char>) -> Option<nat> {
    if algorithm =~= "sha256"@ {
        Some(64)
    } else if algorithm =~= "sha384"@ {
        Some(96)
    } else if algorithm =~= "sha512"@ {
        Some(128)
    } else {
        None
    }
}

/// Whether `encoded` can be a digest that `algorithm` gave.
pub open spec fn is_encoded(algorithm: Seq<char>, encoded: Seq<char>) -> bool {
    &&& encoded.len() > 0
    &&& forall|i: int| 0 <= i < encoded.len() ==> is_encoded_char(#[trigger] encoded[i])
    &&& hex_len(algorithm) is Some ==> {
        &&& encoded.len() == hex_len(algorithm)->0
        &&& forall|i: int| 0 <= i < encoded.len() ==> is_lower_hex(#[trigger] encoded[i])
    }
}

/// Whether `text` is the digest `encoded`, given by `algorithm`.
pub open spec fn is_digest_by(text: Seq<char>, algorithm: Seq<char>, encoded: Seq<char>) -> bool {
    &&& text =~= algorithm + seq![':'] + encoded
    &&& is_algorithm(algorithm)
    &&& is_encoded(algorithm, encoded)
}

/// Whether `text` is a digest whose encoded part is `encoded`.
pub open spec fn has_encoded(text: Seq<char>, encoded: Seq<char>) -> bool {
    exists|algorithm: Seq<char>| is_digest_by(text, algorithm, encoded)
}

/// Whether `text` is a digest.
pub open spec fn is_digest(text: Seq<char>) -> bool {
    exists|encoded: Seq<char>| has_encoded(text, encoded)
}

/// Whether every character is ASCII.
pub open spec fn ascii_only(s: Seq<char>) -> bool {
    forall|i: int| 0 <= i < s.len() ==> (#[trigger] s[i]) as u32 <= 127
}

/// `oci_spec::image::Digest::try_from` on a text, then `digest` on what it accepts.
///
/// Accepted are an algorithm, a colon, and a part that is not empty and holds ASCII letters, digits,
/// `=`, `_` and `-` only. With an algorithm of the SHA family that part holds as many lowercase
/// hexadecimal digits as the algorithm gives. It is what `digest` returns. No algorithm holds a colon,
/// so the first colon of a text is the one that counts.
#[verifier::external_body]
fn parse_encoded(text: &str) -> (r: Option<String>)
    ensures
        r is Some <==> is_digest(text@),
        r is Some ==> has_encoded(text@, r->0@),
{
    match oci_spec::image::Digest::try_from(text) {
        Ok(d) => Some(d.digest().to_owned()),
        Err(_) => None,
    }
}

/// The digest of a manifest or of a layer. Its view is the whole text.
#[derive(Debug)]
pub struct Digest {
    value: String,
    encoded: String,
}

impl View for Digest {
    type V = Seq<char>;

    closed spec fn view(&self) -> Seq<char> {
        self.value@
    }
}

impl Digest {
    #[verifier::type_invariant]
    spec fn inv(self) -> bool {
        has_encoded(self.value@, self.encoded@)
    }

    /// The part after the algorithm.
    pub closed spec fn encoded_part(self) -> Seq<char> {
        self.encoded@
    }

    /// A digest from its text; nothing where the text is none.
    pub fn parse(text: &str) -> (r: Option<Digest>)
        ensures
            r is Some <==> is_digest(text@),
            r is Some ==> r->0@ == text@,
            r is Some ==> has_encoded(text@, r->0.encoded_part()),
    {
        match parse_encoded(text) {
            Some(encoded) => Some(Digest { value: text.to_owned(), encoded }),
            None => None,
        }
    }

    /// The whole text.
    pub fn as_str(&self) -> (r: &str)
        ensures
            r@ == self@,
    {
        self.value.as_str()
    }

    /// The part after the algorithm.
    pub fn encoded(&self) -> (r: &str)
        ensures
            r@ == self.encoded_part(),
            has_encoded(self@, r@),
    {
        proof {
            use_type_invariant(self);
        }
        self.encoded.as_str()
    }

    /// Whether the encoded part is long enough to be shortened.
    pub fn can_shorten(&self) -> (r: bool)
        ensures
            r <==> self.encoded_part().len() >= SHORT_DIGEST_LEN,
            r <==> self.encoded_part().len() >= 21,
    {
        self.encoded.as_str().unicode_len() >= SHORT_DIGEST_LEN
    }

    /// The first characters of the encoded part.
    pub fn short(&self) -> (r: String)
        requires
            self.encoded_part().len() >= SHORT_DIGEST_LEN,
        ensures
            r@ == self.encoded_part().take(SHORT_DIGEST_LEN as int),
            r@ == self.encoded_part().take(21),
    {
        self.encoded.as_str().substring_char(0, SHORT_DIGEST_LEN).to_owned()
    }
}

impl Clone for Digest {
    fn clone(&self) -> (r: Digest)
        ensures
            r == *self,
    {
        proof {
            use_type_invariant(self);
        }
        Digest { value: self.value.clone(), encoded: self.encoded.clone() }
    }
}

// ---------------------------------------------------------------------------
// Laws

/// A text is a digest in one way only.
pub proof fn digest_is_read_one_way(
    text: Seq<char>,
    algorithm: Seq<char>,
    encoded: Seq<char>,
    other_algorithm: Seq<char>,
    other_encoded: Seq<char>,
)
    requires
        is_digest_by(text, algorithm, encoded),
        is_digest_by(text, other_algorithm, other_encoded),
    ensures
        algorithm == other_algorithm,
        encoded == other_encoded,
{
    let n = algorithm.len() as int;
    let m = other_algorithm.len() as int;
    assert(text[n] == ':' && text[m] == ':');
    if n < m {
        assert(text[n] == other_algorithm[n]);
    }
    if m < n {
        assert(text[m] == algorithm[m]);
    }
    assert(algorithm == text.take(n));
    assert(other_algorithm == text.take(n));
    assert(encoded == text.skip(n + 1));
    assert(other_encoded == text.skip(n + 1));
}

/// The encoded part is ASCII: each of its characters is one byte.
pub proof fn encoded_part_is_ascii(text: Seq<char>, encoded: Seq<char>)
    requires
        has_encoded(text, encoded),
    ensures
        encoded.len() > 0,
        ascii_only(encoded),
{
}

/// With an algorithm of the SHA family, as many lowercase hexadecimal digits as it gives make a digest
/// with it, and no other text does. Each is long enough to be shortened.
pub proof fn sha_digests(algorithm: Seq<char>, encoded: Seq<char>)
    requires
        hex_len(algorithm) is Some,
    ensures
        is_digest_by(algorithm + seq![':'] + encoded, algorithm, encoded) <==> {
            &&& encoded.len() == hex_len(algorithm)->0
            &&& forall|i: int| 0 <= i < encoded.len() ==> is_lower_hex(#[trigger] encoded[i])
        },
        has_encoded(algorithm + seq![':'] + encoded, encoded) ==> encoded.len()
            >= SHORT_DIGEST_LEN,
{
    reveal_strlit("sha256");
    reveal_strlit("sha384");
    reveal_strlit("sha512");
    let text = algorithm + seq![':'] + encoded;
    assert(is_algorithm(algorithm));
    if has_encoded(text, encoded) {
        let other = choose|a: Seq<char>| is_digest_by(text, a, encoded);
        assert(other.len() == algorithm.len());
        assert(other == text.take(other.len() as int));
        assert(algorithm == text.take(other.len() as int));
    }
}

/// `sha256:` and sixty-four lowercase hexadecimal digits are a digest.
pub proof fn sha256_is_a_digest(hex: Seq<char>)
    requires
        hex.len() == 64,
        forall|i: int| 0 <= i < hex.len() ==> is_lower_hex(#[trigger] hex[i]),
    ensures
        is_digest("sha256:"@ + hex),
        has_encoded("sha256:"@ + hex, hex),
{
    reveal_strlit("sha256");
    reveal_strlit("sha256:");
    sha_digests("sha256"@, hex);
    assert("sha256:"@ + hex =~= "sha256"@ + seq![':'] + hex);
    assert(is_digest_by("sha256:"@ + hex, "sha256"@, hex));
    assert(has_encoded("sha256:"@ + hex, hex));
}

} // verus!
