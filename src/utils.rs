use rand::distributions::Alphanumeric;
use rand::rngs::ThreadRng;
use rand::Rng;
use vstd::prelude::*;
use vstd::string::StrSliceExecFns;
use vstd::string::StringExecFns;

verus! {

#[verifier::external_type_specification]
#[verifier::external_body]
pub struct ExThreadRng(rand::rngs::ThreadRng);

/// Length of a paste id.
pub const ID_LENGTH: usize = 20;

/// Length of a safety token.
pub const SAFETY_LENGTH: usize = 64;

/// Message of a missing authorization header.
pub const MISSING_HEADER: &'static str = "Missing Authorization header.";

/// Message of a malformed authorization header.
pub const INVALID_HEADER: &'static str = "Invalid Authorization header.";

/// An ASCII letter or digit.
pub open spec fn is_alphanumeric(c: char) -> bool {
    ('A' <= c <= 'Z') || ('a' <= c <= 'z') || ('0' <= c <= '9')
}

/// Relies on `rand::thread_rng`: a handle to the thread-local generator.
#[verifier::external_body]
fn thread_rng() -> ThreadRng {
    rand::thread_rng()
}

/// Relies on rand's `Alphanumeric` distribution, which draws from the table
/// `A-Z`, `a-z`, `0-9`.
#[verifier::external_body]
fn sample_alphanumeric(rng: &mut ThreadRng) -> (c: char)
    ensures
        is_alphanumeric(c),
{
    rng.sample(Alphanumeric) as char
}

/// Relies on `String::push`: appends one character.
#[verifier::external_body]
fn push_char(s: &mut String, c: char)
    ensures
        final(s)@ == old(s)@.push(c),
{
    s.push(c)
}

/// A fresh random string of `size` ASCII letters and digits.
pub fn generate_id(size: usize) -> (r: String)
    ensures
        r@.len() == size,
        forall|i: int| 0 <= i < size ==> is_alphanumeric(#[trigger] r@[i]),
{
    let mut rng = thread_rng();
    let mut id = String::new();
    let mut i: usize = 0;
    while i < size
        invariant
            i <= size,
            id@.len() == i,
            forall|k: int| 0 <= k < i ==> is_alphanumeric(#[trigger] id@[k]),
        decreases size - i,
    {
        let c = sample_alphanumeric(&mut rng);
        push_char(&mut id, c);
        i = i + 1;
    }
    id
}

/// What `str::to_lowercase` returns for `s`.
pub uninterp spec fn lower_of(s: Seq<char>) -> Seq<char>;

/// Relies on `str::to_lowercase`: the result depends on the characters alone.
#[verifier::external_body]
fn lowercase(s: &str) -> (r: String)
    ensures
        r@ == lower_of(s@),
{
    s.to_lowercase()
}

/// Splits `value` around its first space.
pub fn split_at_space(value: &str) -> (r: Option<(&str, &str)>)
    ensures
        r is None <==> !value@.contains(' '),
        r matches Some((a, b)) ==> !a@.contains(' ') && value@ == a@ + seq![' '] + b@,
{
    let n = value.unicode_len();
    let mut i: usize = 0;
    while i < n
        invariant
            n == value@.len(),
            i <= n,
            forall|k: int| 0 <= k < i ==> value@[k] != ' ',
        decreases n - i,
    {
        if value.get_char(i) == ' ' {
            let a = value.substring_char(0, i);
            let b = value.substring_char(i + 1, n);
            assert(value@ =~= a@ + seq![' '] + b@);
            return Some((a, b));
        }
        i = i + 1;
    }
    None
}

/// Why an authorization header was not accepted.
#[derive(Clone, Copy, Debug, PartialEq, Eq, Structural)]
pub enum HeaderError {
    Missing,
    Invalid,
}

impl HeaderError {
    pub fn message(&self) -> (r: &'static str)
        ensures
            *self == HeaderError::Missing ==> r@ == MISSING_HEADER@,
            *self == HeaderError::Invalid ==> r@ == INVALID_HEADER@,
    {
        match self {
            HeaderError::Missing => MISSING_HEADER,
            HeaderError::Invalid => INVALID_HEADER,
        }
    }
}

/// A password supplied as `Authorization: Password <value>`.
pub struct PasswordHeader {
    value: String,
}

impl PasswordHeader {
    pub closed spec fn view_value(&self) -> Seq<char> {
        self.value@
    }

    pub fn get(&self) -> (r: &str)
        ensures
            r@ == self.view_value(),
    {
        self.value.as_str()
    }

    /// Accepts `credential` when the scheme, already lowercased, is `password`.
    pub fn from_parts(lowered_scheme: &str, credential: &str) -> (r: Result<Self, HeaderError>)
        ensures
            r is Ok <==> lowered_scheme@ == "password"@,
            r matches Ok(h) ==> h.view_value() == credential@,
            r matches Err(e) ==> e == HeaderError::Invalid,
    {
        let scheme = String::from_str(lowered_scheme);
        let expected = String::from_str("password");
        if scheme == expected {
            Ok(PasswordHeader { value: String::from_str(credential) })
        } else {
            Err(HeaderError::Invalid)
        }
    }

    /// Reads the header's value: the scheme is the text before the first
    /// space, compared without regard to case; the password is the rest.
    pub fn from_header(value: Option<&str>) -> (r: Result<Self, HeaderError>)
        ensures
            value is None ==> r == Err::<Self, HeaderError>(HeaderError::Missing),
            value is Some && !value->0@.contains(' ') ==> r == Err::<Self, HeaderError>(
                HeaderError::Invalid,
            ),
            value is Some && value->0@.contains(' ') ==> exists|a: Seq<char>, b: Seq<char>|
                #![trigger a + seq![' '] + b]
                {
                    &&& !a.contains(' ')
                    &&& value->0@ == a + seq![' '] + b
                    &&& (r is Ok <==> lower_of(a) == "password"@)
                    &&& (r matches Ok(h) ==> h.view_value() == b)
                    &&& (r matches Err(e) ==> e == HeaderError::Invalid)
                },
    {
        let v = match value {
            Some(v) => v,
            None => return Err(HeaderError::Missing),
        };
        match split_at_space(v) {
            None => Err(HeaderError::Invalid),
            Some((scheme, credential)) => {
                let lowered = lowercase(scheme);
                let r = PasswordHeader::from_parts(lowered.as_str(), credential);
                assert(!scheme@.contains(' ') && v@ == scheme@ + seq![' '] + credential@);
                r
            },
        }
    }
}

} // verus!
