//! What a user types and what the environment gives: session codes, addresses
//! and the program's mode.

use vstd::prelude::*;
use vstd::utf8::is_ascii_chars;

use crate::code::{is_code, is_code_symbol};
use crate::text::{join2, join3};

verus! {

/// White space as Unicode defines it.
pub open spec fn is_whitespace(c: char) -> bool {
    let n = c as u32;
    ||| 0x9 <= n <= 0xd
    ||| n == 0x20
    ||| n == 0x85
    ||| n == 0xa0
    ||| n == 0x1680
    ||| 0x2000 <= n <= 0x200a
    ||| n == 0x2028
    ||| n == 0x2029
    ||| n == 0x202f
    ||| n == 0x205f
    ||| n == 0x3000
}

/// `text` without the white space at its start.
pub open spec fn trimmed_start(text: Seq<char>) -> Seq<char>
    decreases text.len(),
{
    if text.len() > 0 && is_whitespace(text[0]) {
        trimmed_start(text.skip(1))
    } else {
        text
    }
}

/// `text` without the white space at its end.
pub open spec fn trimmed_end(text: Seq<char>) -> Seq<char>
    decreases text.len(),
{
    if text.len() > 0 && is_whitespace(text.last()) {
        trimmed_end(text.drop_last())
    } else {
        text
    }
}

/// `text` without the white space at either end.
pub open spec fn trimmed(text: Seq<char>) -> Seq<char> {
    trimmed_end(trimmed_start(text))
}

/// `str::trim` of std.
///
/// Claimed of it: it takes white space, as Unicode defines it, from both ends.
#[verifier::external_body]
fn str_trim(text: &str) -> (trimmed_text: &str)
    ensures
        trimmed_text@ == trimmed(text@),
{
    text.trim()
}

/// `text` in upper case, as `str::to_uppercase` of std writes it.
pub uninterp spec fn uppercase(text: Seq<char>) -> Seq<char>;

/// An ASCII character in upper case.
pub open spec fn ascii_upper(c: char) -> char {
    if 'a' <= c <= 'z' {
        (c as u32 - 32) as char
    } else {
        c
    }
}

/// `str::to_uppercase` of std.
///
/// Claimed of it: the result depends on the text alone, and an ASCII text keeps
/// all its characters but for the lower-case letters, which become the
/// upper-case ones.
#[verifier::external_body]
fn str_to_uppercase(text: &str) -> (upper: String)
    ensures
        upper@ == uppercase(text@),
        is_ascii_chars(text@) ==> upper@ == text@.map_values(|c: char| ascii_upper(c)),
{
    text.to_uppercase()
}

/// The session code in a line that the user typed: what is left without the white
/// space around it, in upper case.
pub open spec fn code_in(line: Seq<char>) -> Seq<char> {
    if is_ascii_chars(trimmed(line)) {
        trimmed(line).map_values(|c: char| ascii_upper(c))
    } else {
        uppercase(trimmed(line))
    }
}

/// The session code in a line that the user typed: white space around it does not
/// count, nor does case.
pub fn typed_code(line: &str) -> (code: String)
    ensures
        code@ == code_in(line@),
        code@ == uppercase(trimmed(line@)),
{
    str_to_uppercase(str_trim(line))
}

/// The address under which a host listens: its own, at a fixed port.
pub open spec fn host_address(local_ip: Seq<char>) -> Seq<char> {
    local_ip + ":5000"@
}

/// The address that a viewer gives for itself: its own, at a fixed port.
pub open spec fn viewer_address(local_ip: Seq<char>) -> Seq<char> {
    local_ip + ":5001"@
}

/// The address under which the host at `local_ip` listens.
pub fn host_quic_addr(local_ip: &str) -> (addr: String)
    ensures
        addr@ == host_address(local_ip@),
        addr@ == local_ip@ + ":5000"@,
{
    join2(local_ip, ":5000")
}

/// The address that the viewer at `local_ip` gives for itself.
pub fn viewer_quic_addr(local_ip: &str) -> (addr: String)
    ensures
        addr@ == viewer_address(local_ip@),
        addr@ == local_ip@ + ":5001"@,
{
    join2(local_ip, ":5001")
}

/// Where the signalling server is: where the environment says, or on this machine.
/// Without a setting the connection is encrypted.
pub open spec fn signaling_base(setting: Option<Seq<char>>) -> Seq<char> {
    match setting {
        Some(url) => url,
        None => "wss://localhost:3000"@,
    }
}

/// The text of an optional string.
pub open spec fn optional_text(text: Option<String>) -> Option<Seq<char>> {
    match text {
        Some(t) => Some(t@),
        None => None,
    }
}

/// Where the signalling server is, given the setting in the environment.
pub fn signaling_url(setting: Option<String>) -> (url: String)
    ensures
        url@ == signaling_base(optional_text(setting)),
        setting matches Some(text) ==> url@ == text@,
        setting is None ==> url@ == "wss://localhost:3000"@,
{
    match setting {
        Some(url) => url,
        None => "wss://localhost:3000".to_owned(),
    }
}

/// Where a host opens a session.
pub fn create_url(base: &str) -> (url: String)
    ensures
        url@ == base@ + "/session/create"@,
{
    join2(base, "/session/create")
}

/// Where a viewer joins the session `code`.
pub fn join_url(base: &str, code: &str) -> (url: String)
    ensures
        url@ == base@ + "/session/join/"@ + code@,
{
    join3(base, "/session/join/", code)
}

/// What the program is started as.
#[derive(Clone, Copy, Debug, PartialEq, Eq, Structural)]
pub enum Mode {
    /// Share this screen.
    Host,
    /// Watch another screen.
    Viewer,
    /// Neither was asked for: say how to.
    Usage,
}

/// What the program is started as, given its first argument.
pub fn mode(argument: Option<String>) -> (mode: Mode)
    ensures
        mode == (match argument {
            Some(text) => if text@ == "--host"@ {
                Mode::Host
            } else if text@ == "--viewer"@ {
                Mode::Viewer
            } else {
                Mode::Usage
            },
            None => Mode::Usage,
        }),
{
    match argument {
        Some(text) => if text == "--host".to_owned() {
            Mode::Host
        } else if text == "--viewer".to_owned() {
            Mode::Viewer
        } else {
            Mode::Usage
        },
        None => Mode::Usage,
    }
}

/// Whether `text` is all white space.
pub open spec fn all_whitespace(text: Seq<char>) -> bool {
    forall|i: int| 0 <= i < text.len() ==> is_whitespace(#[trigger] text[i])
}

proof fn lemma_trimmed_start(space: Seq<char>, text: Seq<char>)
    requires
        all_whitespace(space),
        text.len() > 0,
        !is_whitespace(text[0]),
    ensures
        trimmed_start(space + text) == text,
    decreases space.len(),
{
    if space.len() == 0 {
        assert(space + text =~= text);
    } else {
        assert((space + text)[0] == space[0]);
        assert((space + text).skip(1) =~= space.skip(1) + text);
        assert forall|i: int| 0 <= i < space.skip(1).len() implies is_whitespace(
            #[trigger] space.skip(1)[i],
        ) by {
            assert(is_whitespace(space[i + 1]));
        }
        lemma_trimmed_start(space.skip(1), text);
    }
}

proof fn lemma_trimmed_end(text: Seq<char>, space: Seq<char>)
    requires
        all_whitespace(space),
        text.len() > 0,
        !is_whitespace(text.last()),
    ensures
        trimmed_end(text + space) == text,
    decreases space.len(),
{
    if space.len() == 0 {
        assert(text + space =~= text);
    } else {
        assert((text + space).last() == space.last());
        assert((text + space).drop_last() =~= text + space.drop_last());
        lemma_trimmed_end(text, space.drop_last());
    }
}

/// Whatever white space surrounds it, a text that neither starts nor ends with
/// white space is what is left.
pub proof fn lemma_trimmed(before: Seq<char>, text: Seq<char>, after: Seq<char>)
    requires
        all_whitespace(before),
        all_whitespace(after),
        text.len() > 0,
        !is_whitespace(text[0]),
        !is_whitespace(text.last()),
    ensures
        trimmed(before + text + after) == text,
{
    assert(before + text + after =~= before + (text + after));
    assert((text + after)[0] == text[0]);
    lemma_trimmed_start(before, text + after);
    lemma_trimmed_end(text, after);
}

/// Whether `typed` is the session code `code`, with letters in either case.
pub open spec fn spells(typed: Seq<char>, code: Seq<char>) -> bool {
    &&& typed.len() == code.len()
    &&& forall|i: int|
        0 <= i < typed.len() ==> (#[trigger] typed[i] as u32) < 128 && ascii_upper(typed[i])
            == code[i]
}

/// A session code is found in what the user types, in either case and with white
/// space around it.
pub proof fn lemma_typed_code_found(
    code: Seq<char>,
    typed: Seq<char>,
    before: Seq<char>,
    after: Seq<char>,
)
    requires
        is_code(code),
        spells(typed, code),
        all_whitespace(before),
        all_whitespace(after),
    ensures
        code_in(before + typed + after) == code,
{
    assert(is_code_symbol(code[0]) && is_code_symbol(code.last()));
    assert(ascii_upper(typed[0]) == code[0]);
    assert(ascii_upper(typed.last()) == code.last());
    lemma_trimmed(before, typed, after);
    assert(typed.map_values(|c: char| ascii_upper(c)) =~= code);
}

/// The address under which a host listens is its own IP address, whatever that is,
/// followed by the port 5000.
pub proof fn lemma_host_address(local_ip: Seq<char>)
    ensures
        host_address(local_ip).len() == local_ip.len() + 5,
        host_address(local_ip).take(local_ip.len() as int) == local_ip,
        host_address(local_ip).skip(local_ip.len() as int) == seq![':', '5', '0', '0', '0'],
{
    reveal_strlit(":5000");
    assert(host_address(local_ip).take(local_ip.len() as int) =~= local_ip);
    assert(host_address(local_ip).skip(local_ip.len() as int) =~= seq![':', '5', '0', '0', '0']);
}

/// The address that a viewer gives is its own IP address, whatever that is, followed by
/// the port 5001.
pub proof fn lemma_viewer_address(local_ip: Seq<char>)
    ensures
        viewer_address(local_ip).len() == local_ip.len() + 5,
        viewer_address(local_ip).take(local_ip.len() as int) == local_ip,
        viewer_address(local_ip).skip(local_ip.len() as int) == seq![':', '5', '0', '0', '1'],
{
    reveal_strlit(":5001");
    assert(viewer_address(local_ip).take(local_ip.len() as int) =~= local_ip);
    assert(viewer_address(local_ip).skip(local_ip.len() as int) =~= seq![':', '5', '0', '0', '1']);
}

/// Hosts at different IP addresses listen under different addresses, and none of them
/// is one that a viewer gives for itself.
pub proof fn lemma_addresses_differ(a: Seq<char>, b: Seq<char>)
    ensures
        host_address(a) == host_address(b) ==> a == b,
        viewer_address(a) == viewer_address(b) ==> a == b,
        host_address(a) != viewer_address(b),
{
    lemma_host_address(a);
    lemma_host_address(b);
    lemma_viewer_address(a);
    lemma_viewer_address(b);
    if host_address(a) == viewer_address(b) {
        assert(host_address(a).skip(a.len() as int)[4] == viewer_address(b).skip(
            b.len() as int,
        )[4]);
    }
}

/// A server that is set is used as it is set, whatever it is.
pub proof fn lemma_setting_used(url: Seq<char>)
    ensures
        signaling_base(Some(url)) == url,
        signaling_base(None) == "wss://localhost:3000"@,
{
}

} // verus!
