//! Previewing a WTML file in the web client.
//!
//! The agent serves the file over HTTP on a local port, and the web client
//! is pointed at it. This module works out the address to open and the
//! arguments that make the agent serve the file.

use vstd::prelude::*;
use vstd::utf8::encode_utf8;
use crate::paths::{file_name_of, path_file_name};
use crate::text::{decimal, decimal_string, texts};

verus! {

/// The ending of the name of a WTML file with relative addresses.
pub const RELATIVE_SUFFIX: &'static str = "_rel.wtml";

/// The ending under which such a file is served.
pub const SERVED_SUFFIX: &'static str = ".wtml";

/// What stands before the port in the address of a served file.
pub const LOCAL_URL_HEAD: &'static str = "http://localhost:";

/// What stands before the address of the served file in the address of the
/// web client.
pub const WEBCLIENT_URL_HEAD: &'static str = "https://worldwidetelescope.org/webclient/?wtml=";

/// The agent's command that serves a WTML file.
pub const SERVE_COMMAND: &'static str = "serve-wtml";

/// What stands before the port in the agent's port argument.
pub const PORT_ARG_HEAD: &'static str = "--port=";

/// Which bytes are escaped when a text is percent-encoded. Bytes outside
/// ASCII are escaped in either case.
#[derive(Debug, Clone, Copy, PartialEq, Eq)]
pub enum EscapeSet {
    /// Every ASCII byte that is neither a letter nor a digit.
    NonAlphanumeric,
    /// The ASCII control characters: 0x00 to 0x1F, and 0x7F.
    Controls,
}

/// Whether `byte` is an ASCII letter or digit.
pub open spec fn ascii_alphanumeric(byte: u8) -> bool {
    ||| 0x30 <= byte <= 0x39
    ||| 0x41 <= byte <= 0x5A
    ||| 0x61 <= byte <= 0x7A
}

/// Whether `byte` is escaped under `set`.
pub open spec fn escaped(set: EscapeSet, byte: u8) -> bool {
    match set {
        EscapeSet::NonAlphanumeric => !ascii_alphanumeric(byte),
        EscapeSet::Controls => byte < 0x20 || byte >= 0x7F,
    }
}

/// The upper-case hexadecimal digit for `n`.
pub open spec fn upper_hex_digit(n: int) -> char
    recommends
        0 <= n < 16,
{
    if n < 10 {
        (48 + n) as char
    } else {
        (55 + n) as char
    }
}

/// The escape of a byte: a percent sign and the byte's two hexadecimal
/// digits, in upper case.
pub open spec fn percent_escape(byte: u8) -> Seq<char> {
    seq!['%', upper_hex_digit(byte as int / 16), upper_hex_digit(byte as int % 16)]
}

/// The percent-encoding of a sequence of bytes: each byte that is escaped
/// under `set` by its escape, each other byte by the ASCII character it is.
pub open spec fn percent_encoded(bytes: Seq<u8>, set: EscapeSet) -> Seq<char>
    decreases bytes.len(),
{
    if bytes.len() == 0 {
        Seq::empty()
    } else if escaped(set, bytes.last()) {
        percent_encoded(bytes.drop_last(), set) + percent_escape(bytes.last())
    } else {
        percent_encoded(bytes.drop_last(), set).push(bytes.last() as char)
    }
}

/// `percent_encoding::utf8_percent_encode`, with the crate's set
/// `NON_ALPHANUMERIC` or `CONTROLS`, written out as a string. The text is
/// taken as its UTF-8 bytes. A byte outside ASCII or in the set becomes a
/// percent sign and two upper-case hexadecimal digits; any other byte stays
/// the character it is.
#[verifier::external_body]
pub(crate) fn percent_encode(input: &str, set: EscapeSet) -> (out: String)
    ensures
        out@ == percent_encoded(encode_utf8(input@), set),
{
    let ascii_set = match set {
        EscapeSet::NonAlphanumeric => percent_encoding::NON_ALPHANUMERIC,
        EscapeSet::Controls => percent_encoding::CONTROLS,
    };
    percent_encoding::utf8_percent_encode(input, ascii_set).to_string()
}

/// The text `s` with every occurrence of `from` replaced by `to`, the
/// occurrences being found from the left and never overlapping.
pub open spec fn replaced(s: Seq<char>, from: Seq<char>, to: Seq<char>) -> Seq<char>
    decreases s.len(),
{
    if from.len() == 0 || s.len() < from.len() {
        s
    } else if s.take(from.len() as int) == from {
        to + replaced(s.skip(from.len() as int), from, to)
    } else {
        seq![s[0]] + replaced(s.skip(1), from, to)
    }
}

/// The characters of a text.
fn chars_of(text: &str) -> (chars: Vec<char>)
    ensures
        chars@ == text@,
{
    let mut chars: Vec<char> = Vec::new();
    for c in iter: text.chars()
        invariant
            iter.seq() == text@,
            chars@ == text@.take(iter.index()),
    {
        proof {
            assert(text@.take(iter.index() + 1) == text@.take(iter.index()).push(c));
        }
        chars.push(c);
    }
    proof {
        assert(text@.take(text@.len() as int) == text@);
    }
    chars
}

/// Whether `pattern` stands in `text` at `at`.
fn occurs_at(text: &Vec<char>, at: usize, pattern: &Vec<char>) -> (b: bool)
    requires
        at <= text.len(),
    ensures
        b == (text@.skip(at as int).len() >= pattern@.len() && text@.skip(at as int).take(
            pattern@.len() as int,
        ) == pattern@),
{
    if text.len() - at < pattern.len() {
        return false;
    }
    let ghost window = text@.skip(at as int).take(pattern@.len() as int);
    let mut k: usize = 0;
    while k < pattern.len()
        invariant
            k <= pattern.len(),
            at + pattern.len() <= text.len(),
            window == text@.skip(at as int).take(pattern@.len() as int),
            forall|j: int| 0 <= j < k ==> window[j] == pattern@[j],
        decreases pattern.len() - k,
    {
        if text[at + k] != pattern[k] {
            assert(window[k as int] != pattern@[k as int]);
            return false;
        }
        k += 1;
    }
    assert(window =~= pattern@);
    true
}

/// Replaces every occurrence of `from` in `text` by `to`. With an empty
/// `from` the text is handed back as it is.
pub fn replace_all(text: &str, from: &str, to: &str) -> (out: String)
    ensures
        out@ == replaced(text@, from@, to@),
{
    let pattern = chars_of(from);
    if pattern.len() == 0 {
        return text.to_owned();
    }
    let chars = chars_of(text);
    let mut out = String::new();
    let mut i: usize = 0;
    assert(text@.skip(0) == text@);
    while i < chars.len()
        invariant
            i <= chars.len(),
            chars@ == text@,
            pattern@ == from@,
            pattern.len() > 0,
            out@ + replaced(text@.skip(i as int), from@, to@) == replaced(text@, from@, to@),
        decreases chars.len() - i,
    {
        let ghost rest = text@.skip(i as int);
        let ghost sofar = out@;
        if occurs_at(&chars, i, &pattern) {
            out.append(to);
            proof {
                assert(rest.skip(from@.len() as int) == text@.skip(i + from@.len()));
                assert(sofar + (to@ + replaced(rest.skip(from@.len() as int), from@, to@)) =~= (
                sofar + to@) + replaced(rest.skip(from@.len() as int), from@, to@));
            }
            i += pattern.len();
        } else {
            out.push(chars[i]);
            proof {
                assert(rest.skip(1) == text@.skip(i + 1));
                assert(rest[0] == text@[i as int]);
                if rest.len() < from@.len() {
                    lemma_short_text_unchanged(rest.skip(1), from@, to@);
                    assert(rest =~= seq![rest[0]] + rest.skip(1));
                }
                assert(sofar + (seq![rest[0]] + replaced(rest.skip(1), from@, to@)) =~= sofar.push(
                    rest[0],
                ) + replaced(rest.skip(1), from@, to@));
            }
            i += 1;
        }
    }
    proof {
        assert(text@.skip(i as int) =~= Seq::<char>::empty());
        assert(out@ + Seq::<char>::empty() =~= out@);
    }
    out
}

/// A text shorter than what is looked for holds no occurrence of it.
proof fn lemma_short_text_unchanged(s: Seq<char>, from: Seq<char>, to: Seq<char>)
    requires
        s.len() < from.len(),
    ensures
        replaced(s, from, to) == s,
{
}

/// The name under which a WTML file is served: a name that ends as a file
/// with relative addresses does is served without that mark.
pub open spec fn served_name(file_name: Seq<char>) -> Seq<char> {
    replaced(file_name, RELATIVE_SUFFIX@, SERVED_SUFFIX@)
}

/// The address at which the agent serves the file `name` on `port`.
pub open spec fn served_url(port: u16, name: Seq<char>) -> Seq<char> {
    LOCAL_URL_HEAD@ + decimal(port as nat) + seq!['/'] + percent_encoded(
        encode_utf8(name),
        EscapeSet::NonAlphanumeric,
    )
}

/// The address of the web client showing the WTML file at `wtml_url`.
pub open spec fn webclient_url(wtml_url: Seq<char>) -> Seq<char> {
    WEBCLIENT_URL_HEAD@ + percent_encoded(encode_utf8(wtml_url), EscapeSet::Controls)
}

/// Whether `c` is a printable ASCII character: from the space to the tilde.
pub open spec fn printable_ascii(c: char) -> bool {
    ' ' <= c <= '~'
}

/// Whether `s` holds printable ASCII characters only.
pub open spec fn all_printable(s: Seq<char>) -> bool {
    forall|i: int| 0 <= i < s.len() ==> printable_ascii(#[trigger] s[i])
}

/// A percent-encoded text holds printable ASCII characters only, under
/// either set.
pub proof fn lemma_percent_encoded_is_printable(bytes: Seq<u8>, set: EscapeSet)
    ensures
        all_printable(percent_encoded(bytes, set)),
    decreases bytes.len(),
{
    if bytes.len() > 0 {
        lemma_percent_encoded_is_printable(bytes.drop_last(), set);
    }
}

/// Escaping the control characters leaves a text of printable ASCII
/// characters as it is.
pub proof fn lemma_printable_text_is_kept(s: Seq<char>)
    requires
        all_printable(s),
    ensures
        percent_encoded(encode_utf8(s), EscapeSet::Controls) == s,
{
    vstd::utf8::is_ascii_chars_encode_utf8(s);
    lemma_printable_bytes_are_kept(encode_utf8(s), s);
}

proof fn lemma_printable_bytes_are_kept(bytes: Seq<u8>, s: Seq<char>)
    requires
        all_printable(s),
        bytes.len() == s.len(),
        forall|i: int| 0 <= i < s.len() ==> s[i] as u8 == #[trigger] bytes[i],
    ensures
        percent_encoded(bytes, EscapeSet::Controls) == s,
    decreases bytes.len(),
{
    if bytes.len() > 0 {
        lemma_printable_bytes_are_kept(bytes.drop_last(), s.drop_last());
        let c = s.last();
        assert(printable_ascii(c));
        assert(bytes.last() == c as u8);
        assert(bytes.last() as char == c);
        assert(s =~= s.drop_last().push(c));
    } else {
        assert(s =~= Seq::<char>::empty());
    }
}

proof fn lemma_decimal_is_printable(n: nat)
    ensures
        all_printable(decimal(n)),
    decreases n,
{
    if n >= 10 {
        lemma_decimal_is_printable(n / 10);
    }
}

/// The address of a served file holds printable ASCII characters only, so
/// that it stands in the address of the web client as it is: nothing in it
/// is escaped a second time.
pub proof fn lemma_served_url_is_kept(port: u16, name: Seq<char>)
    ensures
        all_printable(served_url(port, name)),
        webclient_url(served_url(port, name)) == WEBCLIENT_URL_HEAD@ + served_url(port, name),
{
    reveal_strlit("http://localhost:");
    assert(all_printable(LOCAL_URL_HEAD@));
    lemma_decimal_is_printable(port as nat);
    lemma_percent_encoded_is_printable(encode_utf8(name), EscapeSet::NonAlphanumeric);
    lemma_printable_text_is_kept(served_url(port, name));
}

/// The arguments that make the agent serve `wtml_path` on `port`.
pub open spec fn serve_args(port: u16, wtml_path: Seq<char>) -> Seq<Seq<char>> {
    seq![SERVE_COMMAND@, PORT_ARG_HEAD@ + decimal(port as nat), wtml_path]
}

/// What a preview needs: the address to open in the browser and the
/// arguments for the agent.
#[derive(Debug, Clone, PartialEq, Eq)]
pub struct PreviewPlan {
    pub browser_url: String,
    pub agent_args: Vec<String>,
}

/// The mathematical content of a [`PreviewPlan`].
pub struct PreviewPlanView {
    pub browser_url: Seq<char>,
    pub agent_args: Seq<Seq<char>>,
}

impl View for PreviewPlan {
    type V = PreviewPlanView;

    open spec fn view(&self) -> PreviewPlanView {
        PreviewPlanView { browser_url: self.browser_url@, agent_args: texts(self.agent_args@) }
    }
}

/// Why a file cannot be previewed.
#[derive(Debug, Clone, Copy, PartialEq, Eq)]
pub enum PreviewError {
    /// The path names no file.
    NotAFileName,
}

impl PreviewError {
    /// A message for the user.
    pub fn message(&self) -> (text: String)
        ensures
            text@ == "the argument should be a WTML filename"@,
    {
        "the argument should be a WTML filename".to_owned()
    }
}

/// The preview of the file `file_name` that lies at `wtml_path`.
pub open spec fn preview_of(port: u16, wtml_path: Seq<char>, file_name: Seq<char>) -> PreviewPlanView {
    PreviewPlanView {
        browser_url: webclient_url(served_url(port, served_name(file_name))),
        agent_args: serve_args(port, wtml_path),
    }
}

/// The preview of the file at `wtml_path`, or the error for a path without
/// a final component.
pub open spec fn planned_preview(port: u16, wtml_path: Seq<char>) -> Result<
    PreviewPlanView,
    PreviewError,
> {
    match path_file_name(wtml_path) {
        None => Err(PreviewError::NotAFileName),
        Some(file_name) => Ok(preview_of(port, wtml_path, file_name)),
    }
}

/// Works out the name under which a WTML file is served.
pub fn served_name_for(file_name: &str) -> (name: String)
    ensures
        name@ == served_name(file_name@),
{
    replace_all(file_name, RELATIVE_SUFFIX, SERVED_SUFFIX)
}

/// Works out the address at which the agent serves the file `name` on
/// `port`.
pub fn served_url_for(port: u16, name: &str) -> (url: String)
    ensures
        url@ == served_url(port, name@),
{
    let mut url = LOCAL_URL_HEAD.to_owned();
    url.append(decimal_string(port as u64).as_str());
    url.push('/');
    url.append(percent_encode(name, EscapeSet::NonAlphanumeric).as_str());
    assert(url@ =~= served_url(port, name@));
    url
}

/// Works out the address of the web client showing the file at `wtml_url`.
pub fn webclient_url_for(wtml_url: &str) -> (url: String)
    ensures
        url@ == webclient_url(wtml_url@),
{
    let mut url = WEBCLIENT_URL_HEAD.to_owned();
    url.append(percent_encode(wtml_url, EscapeSet::Controls).as_str());
    url
}

/// Plans the preview of the file `file_name` that lies at `wtml_path`.
pub fn preview_for(port: u16, wtml_path: &str, file_name: &str) -> (plan: PreviewPlan)
    ensures
        plan@ == preview_of(port, wtml_path@, file_name@),
{
    let name = served_name_for(file_name);
    let wtml_url = served_url_for(port, name.as_str());
    let browser_url = webclient_url_for(wtml_url.as_str());
    let mut port_arg = PORT_ARG_HEAD.to_owned();
    port_arg.append(decimal_string(port as u64).as_str());
    let mut agent_args: Vec<String> = Vec::new();
    agent_args.push(SERVE_COMMAND.to_owned());
    agent_args.push(port_arg);
    agent_args.push(wtml_path.to_owned());
    assert(texts(agent_args@) =~= serve_args(port, wtml_path@));
    PreviewPlan { browser_url, agent_args }
}

/// Plans the preview of the file at `wtml_path`, served on `port`.
pub fn plan_preview(port: u16, wtml_path: &str) -> (r: Result<PreviewPlan, PreviewError>)
    ensures
        match r {
            Ok(plan) => planned_preview(port, wtml_path@) == Ok::<PreviewPlanView, PreviewError>(
                plan@,
            ),
            Err(error) => planned_preview(port, wtml_path@) == Err::<PreviewPlanView, PreviewError>(
                error,
            ),
        },
{
    match file_name_of(wtml_path) {
        None => Err(PreviewError::NotAFileName),
        Some(file_name) => Ok(preview_for(port, wtml_path, file_name.as_str())),
    }
}

} // verus!
