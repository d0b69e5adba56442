//! Checks around the command line: required settings, the swap command, and
//! the user's confirmation.

use vstd::prelude::*;

verus! {

/// Whether two texts hold the same characters.
pub fn text_equals(a: &str, b: &str) -> (r: bool)
    ensures
        r == (a@ == b@),
{
    let n = a.unicode_len();
    if n != b.unicode_len() {
        return false;
    }
    let mut i: usize = 0;
    while i < n
        invariant
            n == a@.len(),
            n == b@.len(),
            0 <= i <= n,
            forall|j: int| 0 <= j < i ==> a@[j] == b@[j],
        decreases n - i,
    {
        if a.get_char(i) != b.get_char(i) {
            return false;
        }
        i = i + 1;
    }
    assert(a@ =~= b@);
    true
}

/// A setting that is missing or empty.
pub open spec fn unset(value: Option<String>) -> bool {
    match value {
        Some(v) => v@.len() == 0,
        None => true,
    }
}

/// The index of the first required setting that is missing or empty, if
/// any (`values[i]` is the value read for the `i`-th setting, `None` where
/// it is not set). The program stops with that setting's name.
pub fn first_unset_variable(values: &Vec<Option<String>>) -> (r: Option<usize>)
    ensures
        r is None <==> forall|i: int| 0 <= i < values.len() ==> !unset(#[trigger] values@[i]),
        r matches Some(i) ==> i < values.len() && unset(values@[i as int]) && forall|j: int|
            0 <= j < i ==> !unset(#[trigger] values@[j]),
{
    let mut i: usize = 0;
    while i < values.len()
        invariant
            0 <= i <= values.len(),
            forall|j: int| 0 <= j < i ==> !unset(#[trigger] values@[j]),
        decreases values.len() - i,
    {
        match &values[i] {
            Some(v) => {
                if v.as_str().is_empty() {
                    return Some(i);
                }
            },
            None => {
                return Some(i);
            },
        }
        i = i + 1;
    }
    None
}

/// Pairs each required setting with its value, as read from the
/// environment; every setting must be set and non-empty (the program stops
/// on the first that is not, as `first_unset_variable` finds it).
pub fn get_env_variables(required_vars: &Vec<String>, values: &Vec<Option<String>>) -> (r: Vec<
    (String, String),
>)
    requires
        required_vars.len() == values.len(),
        forall|i: int| 0 <= i < values.len() ==> !unset(#[trigger] values@[i]),
    ensures
        r.len() == required_vars.len(),
        forall|i: int|
            0 <= i < r.len() ==> (#[trigger] r@[i]).0@ == required_vars@[i]@ && values@[i] is Some
                && r@[i].1@ == values@[i].unwrap()@,
{
    let mut vars: Vec<(String, String)> = Vec::new();
    let mut i: usize = 0;
    while i < required_vars.len()
        invariant
            required_vars.len() == values.len(),
            forall|j: int| 0 <= j < values.len() ==> !unset(#[trigger] values@[j]),
            0 <= i <= values.len(),
            vars.len() == i,
            forall|j: int|
                0 <= j < i ==> (#[trigger] vars@[j]).0@ == required_vars@[j]@ && values@[j] is Some
                    && vars@[j].1@ == values@[j].unwrap()@,
        decreases values.len() - i,
    {
        assert(!unset(values@[i as int]));
        match &values[i] {
            Some(v) => {
                vars.push((required_vars[i].clone(), v.clone()));
            },
            None => {},
        }
        i = i + 1;
    }
    vars
}

/// The swaps that the command line offers.
#[derive(Clone, Copy, Debug, PartialEq, Eq)]
pub enum SwapCommand {
    /// `buy_eth`: buy ETH with USDC.
    BuyEth,
    /// `buy_usdc`: buy USDC with ETH.
    BuyUsdc,
}

/// The swap that a command names: `buy_eth` or `buy_usdc`; `None` for any
/// other text.
pub fn parse_command(command: &str) -> (r: Option<SwapCommand>)
    ensures
        r == (if command@ == "buy_eth"@ {
            Some(SwapCommand::BuyEth)
        } else if command@ == "buy_usdc"@ {
            Some(SwapCommand::BuyUsdc)
        } else {
            None
        }),
{
    if text_equals(command, "buy_eth") {
        Some(SwapCommand::BuyEth)
    } else if text_equals(command, "buy_usdc") {
        Some(SwapCommand::BuyUsdc)
    } else {
        None
    }
}

/// Whether a character is whitespace in Unicode's `White_Space` property,
/// which `char::is_whitespace` follows: tab to carriage return, space, next
/// line, no-break space, ogham space mark, the spaces from en quad to hair
/// space, line and paragraph separators, narrow no-break space, medium
/// mathematical space and ideographic space.
pub open spec fn is_white_space(c: char) -> bool {
    let u = c as u32;
    ||| 0x9 <= u <= 0xd
    ||| u == 0x20
    ||| u == 0x85
    ||| u == 0xa0
    ||| u == 0x1680
    ||| 0x2000 <= u <= 0x200a
    ||| u == 0x2028
    ||| u == 0x2029
    ||| u == 0x202f
    ||| u == 0x205f
    ||| u == 0x3000
}

/// The text without its leading whitespace.
pub open spec fn trim_leading(s: Seq<char>) -> Seq<char>
    decreases s.len(),
{
    if s.len() > 0 && is_white_space(s[0]) {
        trim_leading(s.drop_first())
    } else {
        s
    }
}

/// The text without its trailing whitespace.
pub open spec fn trim_trailing(s: Seq<char>) -> Seq<char>
    decreases s.len(),
{
    if s.len() > 0 && is_white_space(s.last()) {
        trim_trailing(s.drop_last())
    } else {
        s
    }
}

/// The text without its leading and trailing whitespace.
pub open spec fn trimmed(s: Seq<char>) -> Seq<char> {
    trim_trailing(trim_leading(s))
}

/// `str::trim`: the text with its leading and trailing whitespace removed,
/// whitespace being Unicode's `White_Space`.
#[verifier::external_body]
fn trim_text<'a>(text: &'a str) -> (r: &'a str)
    ensures
        r@ == trimmed(text@),
{
    text.trim()
}

/// Whether the line the user typed accepts the swap: once trimmed of
/// whitespace, it is exactly `y`.
pub fn is_confirmed(input: &str) -> (r: bool)
    ensures
        r == (trimmed(input@) == "y"@),
{
    text_equals(trim_text(input), "y")
}

} // verus!
