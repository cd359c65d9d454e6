use vstd::prelude::*;
use vstd::string::StringExecFns;

verus! {

/// Numeric code of the engine's file-closed failure.
pub const CLOSED_CODE: i32 = -1075;

/// Numeric code of the engine's repository-closed failure.
pub const REPO_CLOSED_CODE: i32 = -1027;

/// Numeric code of the engine's invalid-argument failure.
pub const INVALID_ARGUMENT_CODE: i32 = -1050;

/// An immutable failure value: the numeric code and the description that
/// the storage engine (or this layer itself) produced at the point of
/// failure. It is created once and rendered into a single opaque message
/// before crossing the host boundary; nothing enriches it afterwards.
#[derive(Debug)]
pub struct EngineError {
    pub code: i32,
    pub desc: String,
}

/// The character standing for one decimal digit.
pub open spec fn digit_char(d: nat) -> char {
    if d == 0 {
        '0'
    } else if d == 1 {
        '1'
    } else if d == 2 {
        '2'
    } else if d == 3 {
        '3'
    } else if d == 4 {
        '4'
    } else if d == 5 {
        '5'
    } else if d == 6 {
        '6'
    } else if d == 7 {
        '7'
    } else if d == 8 {
        '8'
    } else {
        '9'
    }
}

/// The decimal digit string of a nonnegative number, most significant
/// digit first.
pub open spec fn dec_digits(n: nat) -> Seq<char>
    decreases n,
{
    if n < 10 {
        seq![digit_char(n)]
    } else {
        dec_digits(n / 10) + seq![digit_char(n % 10)]
    }
}

/// The decimal rendering of a signed number: a minus sign followed by the
/// digits of the magnitude when negative.
pub open spec fn dec_int(n: int) -> Seq<char> {
    if n < 0 {
        seq!['-'] + dec_digits((-n) as nat)
    } else {
        dec_digits(n as nat)
    }
}

/// The single string that carries a failure across the host boundary:
/// the engine name, the numeric code in parentheses, and the description.
pub open spec fn bridge_message(code: int, desc: Seq<char>) -> Seq<char> {
    "ZboxFS("@ + dec_int(code) + "): "@ + desc
}

fn digit_str(d: u32) -> (r: &'static str)
    requires
        d < 10,
    ensures
        r@ == seq![digit_char(d as nat)],
{
    proof {
        reveal_strlit("0");
        reveal_strlit("1");
        reveal_strlit("2");
        reveal_strlit("3");
        reveal_strlit("4");
        reveal_strlit("5");
        reveal_strlit("6");
        reveal_strlit("7");
        reveal_strlit("8");
        reveal_strlit("9");
        assert(("0")@ =~= seq!['0']);
        assert(("1")@ =~= seq!['1']);
        assert(("2")@ =~= seq!['2']);
        assert(("3")@ =~= seq!['3']);
        assert(("4")@ =~= seq!['4']);
        assert(("5")@ =~= seq!['5']);
        assert(("6")@ =~= seq!['6']);
        assert(("7")@ =~= seq!['7']);
        assert(("8")@ =~= seq!['8']);
        assert(("9")@ =~= seq!['9']);
    }
    if d == 0 {
        "0"
    } else if d == 1 {
        "1"
    } else if d == 2 {
        "2"
    } else if d == 3 {
        "3"
    } else if d == 4 {
        "4"
    } else if d == 5 {
        "5"
    } else if d == 6 {
        "6"
    } else if d == 7 {
        "7"
    } else if d == 8 {
        "8"
    } else {
        "9"
    }
}

fn push_decimal(n: u32, out: &mut String)
    ensures
        final(out)@ == old(out)@ + dec_digits(n as nat),
    decreases n,
{
    if n < 10 {
        out.append(digit_str(n));
    } else {
        push_decimal(n / 10, out);
        out.append(digit_str(n % 10));
        proof {
            assert(final(out)@ =~= old(out)@ + dec_digits(n as nat));
        }
    }
}

impl EngineError {
    /// The failure reported when a file or version-reader handle is used
    /// after it was closed.
    pub fn closed_file() -> (e: EngineError)
        ensures
            e.code == CLOSED_CODE,
            e.desc@ == "File is closed"@,
    {
        EngineError { code: CLOSED_CODE, desc: String::from_str("File is closed") }
    }

    /// The failure reported when a repository handle is used after it was
    /// closed.
    pub fn closed_repo() -> (e: EngineError)
        ensures
            e.code == REPO_CLOSED_CODE,
            e.desc@ == "Repo is closed"@,
    {
        EngineError { code: REPO_CLOSED_CODE, desc: String::from_str("Repo is closed") }
    }

    /// The failure reported when a request carries an argument the façade
    /// itself rejects, such as an unrecognized seek selector.
    pub fn invalid_argument() -> (e: EngineError)
        ensures
            e.code == INVALID_ARGUMENT_CODE,
            e.desc@ == "Invalid argument"@,
    {
        EngineError { code: INVALID_ARGUMENT_CODE, desc: String::from_str("Invalid argument") }
    }

    /// Render the failure into the one opaque message that crosses the
    /// host boundary. The structured code is not recoverable on the far
    /// side: only this message travels.
    pub fn message(&self) -> (r: String)
        ensures
            r@ == bridge_message(self.code as int, self.desc@),
    {
        let mut out = String::from_str("ZboxFS(");
        if self.code >= 0 {
            push_decimal(self.code as u32, &mut out);
        } else {
            proof {
                reveal_strlit("-");
                assert(("-")@ =~= seq!['-']);
            }
            out.append("-");
            let magnitude: i64 = -(self.code as i64);
            assert(0 < magnitude <= u32::MAX);
            push_decimal(magnitude as u32, &mut out);
        }
        out.append("): ");
        out.append(self.desc.as_str());
        proof {
            assert(out@ =~= bridge_message(self.code as int, self.desc@));
        }
        out
    }
}

} // verus!
