//! OSC 52 clipboard writes: the escape sequence that asks the terminal to
//! put a text on the host clipboard.

use base64::Engine;
use vstd::prelude::*;

verus! {

/// The standard (padded) base64 encoding of the UTF-8 bytes of `text`.
pub uninterp spec fn base64_standard(text: Seq<char>) -> Seq<char>;

/// Whether the base64 encoding of `text` has a length that fits in `usize`.
pub open spec fn encodable(text: Seq<char>) -> bool {
    (vstd::utf8::encode_utf8(text).len() + 2) / 3 * 4 <= usize::MAX
}

/// `base64::engine::general_purpose::STANDARD.encode`: the padded base64
/// encoding of the bytes of `text`. It panics when the encoded length
/// overflows `usize`.
#[verifier::external_body]
fn encode_base64(text: &str) -> (r: String)
    requires
        encodable(text@),
    ensures
        r@ == base64_standard(text@),
{
    base64::engine::general_purpose::STANDARD.encode(text)
}

/// The OSC 52 sequence that copies `text`: `ESC ] 52 ; c ; <base64> BEL`,
/// wrapped as a tmux passthrough (`ESC P tmux ; ESC <sequence> ESC \`) when
/// `tmux`.
pub open spec fn osc52_spec(encoded: Seq<char>, tmux: bool) -> Seq<char> {
    if tmux {
        "\x1bPtmux;\x1b\x1b]52;c;"@ + encoded + "\x07\x1b\\"@
    } else {
        "\x1b]52;c;"@ + encoded + "\x07"@
    }
}

/// Builds the OSC 52 copy sequence for `text`; wraps it in a tmux
/// passthrough when `tmux` is true.
pub fn sequence(text: &str, tmux: bool) -> (r: String)
    requires
        encodable(text@),
    ensures
        r@ == osc52_spec(base64_standard(text@), tmux),
{
    let encoded = encode_base64(text);
    let mut s = String::new();
    if tmux {
        s.append("\x1bPtmux;\x1b\x1b]52;c;");
        s.append(encoded.as_str());
        s.append("\x07\x1b\\");
    } else {
        s.append("\x1b]52;c;");
        s.append(encoded.as_str());
        s.append("\x07");
    }
    s
}

} // verus!
