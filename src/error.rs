use vstd::prelude::*;

verus! {

/// The realm named in every challenge that this crate sends.
pub const REALM: &'static str = "ssh-casign";

/// Why a request was refused. Every cause (missing or malformed header, a
/// token that the validator refused, claims of the wrong shape) is one
/// invalid-token failure with a description for the client.
#[derive(Debug)]
pub enum AuthError {
    InvalidToken(String),
}

/// The response that refuses a request: its status, the value of its
/// `WWW-Authenticate` header and its body.
pub struct Unauthorized {
    pub status: u16,
    pub www_authenticate: String,
    pub body: Vec<u8>,
}

/// A character that a header value cannot carry, even inside quotes.
pub open spec fn is_control(c: char) -> bool {
    (c as u32) < 32 || (c as u32) == 127
}

/// One character as it stands inside a quoted string: a quote or a backslash
/// gets a backslash before it, a control character becomes a space.
pub open spec fn escape_char(c: char) -> Seq<char> {
    if c == '"' || c == '\\' {
        seq!['\\', c]
    } else if is_control(c) {
        seq![' ']
    } else {
        seq![c]
    }
}

/// Text made safe to stand between the quotes of a header parameter.
pub open spec fn escape_quoted(s: Seq<char>) -> Seq<char>
    decreases s.len(),
{
    if s.len() == 0 {
        Seq::empty()
    } else {
        escape_quoted(s.drop_last()) + escape_char(s.last())
    }
}

/// The `WWW-Authenticate` value that refuses a request for the given reason.
pub open spec fn challenge(description: Seq<char>) -> Seq<char> {
    "Bearer realm=\""@ + REALM@ + "\" error=\"invalid_token\" error_description=\""@
        + escape_quoted(description) + "\""@
}

/// Text that passes through `escape_quoted` unchanged.
pub open spec fn is_plain(s: Seq<char>) -> bool {
    forall|i: int| 0 <= i < s.len() ==> escape_char(#[trigger] s[i]) == seq![s[i]]
}

/// Plain text is its own escaped form.
pub proof fn lemma_escape_plain(s: Seq<char>)
    requires
        is_plain(s),
    ensures
        escape_quoted(s) == s,
    decreases s.len(),
{
    if s.len() > 0 {
        let init = s.drop_last();
        assert(is_plain(init)) by {
            assert forall|i: int| 0 <= i < init.len() implies escape_char(#[trigger] init[i])
                == seq![init[i]] by {
                assert(init[i] == s[i]);
            }
        }
        lemma_escape_plain(init);
        assert(escape_char(s[s.len() - 1]) == seq![s[s.len() - 1]]);
        assert(init + seq![s.last()] =~= s);
    }
}

/// Escaped text holds no control character, so it can stand in a header.
pub proof fn lemma_escape_has_no_control(s: Seq<char>)
    ensures
        forall|i: int| 0 <= i < escape_quoted(s).len() ==> !is_control(#[trigger] escape_quoted(s)[i]),
    decreases s.len(),
{
    if s.len() > 0 {
        lemma_escape_has_no_control(s.drop_last());
        let a = escape_quoted(s.drop_last());
        let b = escape_char(s.last());
        assert forall|i: int| 0 <= i < (a + b).len() implies !is_control(#[trigger] (a + b)[i]) by {
            if i >= a.len() {
                assert(b[i - a.len()] == (a + b)[i]);
            } else {
                assert(a[i] == (a + b)[i]);
            }
        }
    }
}

/// Escapes `s` so that it can stand between the quotes of a header
/// parameter.
pub fn escape_description(s: &str) -> (r: String)
    ensures
        r@ == escape_quoted(s@),
        forall|i: int| 0 <= i < r@.len() ==> !is_control(#[trigger] r@[i]),
{
    let n = s.unicode_len();
    let mut out = String::new();
    let mut i: usize = 0;
    while i < n
        invariant
            n == s@.len(),
            i <= n,
            out@ == escape_quoted(s@.subrange(0, i as int)),
        decreases n - i,
    {
        let c = s.get_char(i);
        proof {
            reveal_strlit("\\\"");
            reveal_strlit("\\\\");
            reveal_strlit(" ");
            assert(s@.subrange(0, i + 1).drop_last() =~= s@.subrange(0, i as int));
        }
        if c == '"' {
            out.append("\\\"");
        } else if c == '\\' {
            out.append("\\\\");
        } else if (c as u32) < 32 || (c as u32) == 127 {
            out.append(" ");
        } else {
            out.append(s.substring_char(i, i + 1));
            assert(s@.subrange(i as int, i + 1) =~= seq![c]);
        }
        i = i + 1;
    }
    assert(s@.subrange(0, n as int) =~= s@);
    proof {
        lemma_escape_has_no_control(s@);
    }
    out
}

impl AuthError {
    /// The reason given to the client.
    pub open spec fn spec_description(&self) -> Seq<char> {
        match self {
            AuthError::InvalidToken(m) => m@,
        }
    }

    /// The reason given to the client.
    pub fn description(&self) -> (r: &str)
        ensures
            r@ == self.spec_description(),
    {
        match self {
            AuthError::InvalidToken(m) => m.as_str(),
        }
    }

    /// The response that refuses the request: status `401`, a bearer
    /// challenge that carries the description, and an empty body.
    pub fn into_response(self) -> (r: Unauthorized)
        ensures
            r.status == 401,
            r.www_authenticate@ == challenge(self.spec_description()),
            r.body@.len() == 0,
    {
        let description = escape_description(self.description());
        let mut value = String::from_str("Bearer realm=\"");
        value.append(REALM);
        value.append("\" error=\"invalid_token\" error_description=\"");
        value.append(description.as_str());
        value.append("\"");
        Unauthorized { status: 401, www_authenticate: value, body: Vec::new() }
    }
}

} // verus!
