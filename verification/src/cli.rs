//! The command line: which command the arguments name, and with what.

use vstd::prelude::*;
use vstd::string::*;
use crate::error::RagError;
use crate::text::{chars_of, decimal_value, is_digit};

verus! {

/// What the program is asked to do.
#[derive(Debug, PartialEq, Eq)]
pub enum Command {
    /// Extract the document at `path`, chunk it and store the chunks under
    /// `patent_id`.
    Ingest { path: String, patent_id: String },
    /// Give every chunk without an embedding one.
    Embed,
    /// Print the chunks nearest to `query`.
    Search { query: String, top_k: i64 },
    /// Print the answer to `question`.
    Query { question: String, top_k: i64 },
}

/// The mathematical content of a `Command`.
pub enum CommandModel {
    Ingest { path: Seq<char>, patent_id: Seq<char> },
    Embed,
    Search { query: Seq<char>, top_k: i64 },
    Query { question: Seq<char>, top_k: i64 },
}

impl View for Command {
    type V = CommandModel;

    open spec fn view(&self) -> CommandModel {
        match *self {
            Command::Ingest { path, patent_id } => CommandModel::Ingest {
                path: path@,
                patent_id: patent_id@,
            },
            Command::Embed => CommandModel::Embed,
            Command::Search { query, top_k } => CommandModel::Search { query: query@, top_k },
            Command::Query { question, top_k } => CommandModel::Query {
                question: question@,
                top_k,
            },
        }
    }
}

/// Whether every character of `s` is a decimal digit.
pub open spec fn all_digits(s: Seq<char>) -> bool {
    forall|i: int| 0 <= i < s.len() ==> is_digit(#[trigger] s[i])
}

/// Whether `s` starts with a sign.
pub open spec fn has_sign(s: Seq<char>) -> bool {
    s.len() > 0 && (s[0] == '+' || s[0] == '-')
}

/// `s` without its sign.
pub open spec fn unsigned_part(s: Seq<char>) -> Seq<char> {
    if has_sign(s) {
        s.skip(1)
    } else {
        s
    }
}

/// The integer that `s` is the decimal form of: an optional sign and then
/// digits only, at least one. `None` for any other text.
pub open spec fn integer_of(s: Seq<char>) -> Option<int> {
    let digits = unsigned_part(s);
    if digits.len() == 0 || !all_digits(digits) {
        None
    } else if s[0] == '-' {
        Some(-(decimal_value(digits) as int))
    } else {
        Some(decimal_value(digits) as int)
    }
}

/// The 64-bit integer that `s` is the decimal form of; `None` where `s` is
/// no integer or one that does not fit.
pub open spec fn count_of(s: Seq<char>) -> Option<i64> {
    match integer_of(s) {
        Some(v) => if i64::MIN <= v <= i64::MAX {
            Some(v as i64)
        } else {
            None
        },
        None => None,
    }
}

/// The count given as argument `at`; 5 where there is no such argument or
/// it is no count.
pub open spec fn top_k_at(args: Seq<Seq<char>>, at: int) -> i64 {
    if at < args.len() {
        match count_of(args[at]) {
            Some(k) => k,
            None => 5,
        }
    } else {
        5
    }
}

/// The command that the arguments name. Arguments that a command has no
/// use for are ignored; a command that lacks an argument, an unknown
/// command and no command at all are invalid.
pub open spec fn command_of(args: Seq<Seq<char>>) -> Result<CommandModel, RagError> {
    if args.len() == 0 {
        Err(RagError::InvalidArgument)
    } else if args[0] == "ingest"@ {
        if args.len() >= 3 {
            Ok(CommandModel::Ingest { path: args[1], patent_id: args[2] })
        } else {
            Err(RagError::InvalidArgument)
        }
    } else if args[0] == "embed"@ {
        Ok(CommandModel::Embed)
    } else if args[0] == "search"@ {
        if args.len() >= 2 {
            Ok(CommandModel::Search { query: args[1], top_k: top_k_at(args, 2) })
        } else {
            Err(RagError::InvalidArgument)
        }
    } else if args[0] == "query"@ {
        if args.len() >= 2 {
            Ok(CommandModel::Query { question: args[1], top_k: top_k_at(args, 2) })
        } else {
            Err(RagError::InvalidArgument)
        }
    } else {
        Err(RagError::InvalidArgument)
    }
}

/// The texts of the arguments.
pub open spec fn arg_views(args: Seq<String>) -> Seq<Seq<char>> {
    args.map_values(|a: String| a@)
}

/// The first digits of a number stand for no more than all of them.
proof fn lemma_value_grows(s: Seq<char>, k: int)
    requires
        0 <= k <= s.len(),
        all_digits(s),
    ensures
        decimal_value(s.take(k)) <= decimal_value(s),
    decreases s.len(),
{
    if k == s.len() {
        assert(s.take(k) == s);
    } else {
        let init = s.drop_last();
        assert(init.take(k) == s.take(k));
        assert(is_digit(s.last()));
        assert forall|i: int| 0 <= i < init.len() implies is_digit(#[trigger] init[i]) by {
            assert(init[i] == s[i]);
        }
        lemma_value_grows(init, k);
    }
}

/// Reads `s` as a 64-bit integer in decimal.
pub fn parse_count(s: &Vec<char>) -> (count: Option<i64>)
    ensures
        count == count_of(s@),
{
    let n = s.len();
    if n == 0 {
        return None;
    }
    let negative = s[0] == '-';
    let start: usize = if s[0] == '+' || s[0] == '-' {
        1
    } else {
        0
    };
    let ghost digits = unsigned_part(s@);
    assert(digits == s@.skip(start as int));
    if start == n {
        return None;
    }
    let mut magnitude: u64 = 0;
    let mut i: usize = start;
    assert(digits.take(0).len() == 0);
    while i < n
        invariant
            n == s.len(),
            start <= i <= n,
            start < n,
            digits == s@.skip(start as int),
            digits == unsigned_part(s@),
            magnitude == decimal_value(digits.take(i - start)),
            magnitude <= 0x8000_0000_0000_0000,
            all_digits(digits.take(i - start)),
        decreases n - i,
    {
        let c: char = s[i];
        let code: u32 = c as u32;
        let ghost upto = digits.take(i - start + 1);
        proof {
            assert(upto.drop_last() == digits.take(i - start));
            assert(upto.last() == s@[i as int]);
        }
        if code < 48 || code > 57 {
            assert(!is_digit(digits[i - start]));
            return None;
        }
        let digit: u64 = (code - 48) as u64;
        if magnitude > (0x8000_0000_0000_0000 - digit) / 10 {
            proof {
                assert(decimal_value(upto) > 0x8000_0000_0000_0000);
                if all_digits(digits) {
                    lemma_value_grows(digits, i - start + 1);
                }
            }
            return None;
        }
        magnitude = 10 * magnitude + digit;
        proof {
            assert forall|k: int| 0 <= k < upto.len() implies is_digit(#[trigger] upto[k]) by {
                if k < upto.len() - 1 {
                    assert(upto[k] == digits.take(i - start)[k]);
                }
            }
        }
        i += 1;
    }
    assert(digits.take(n - start) == digits);
    if negative {
        if magnitude == 0x8000_0000_0000_0000 {
            Some(i64::MIN)
        } else {
            Some(-(magnitude as i64))
        }
    } else if magnitude > 0x7FFF_FFFF_FFFF_FFFF {
        None
    } else {
        Some(magnitude as i64)
    }
}

/// The count given as argument `at`, or 5.
fn top_k_argument(args: &Vec<String>, at: usize) -> (k: i64)
    ensures
        k == top_k_at(arg_views(args@), at as int),
{
    if at < args.len() {
        match parse_count(&chars_of(args[at].as_str())) {
            Some(k) => k,
            None => 5,
        }
    } else {
        5
    }
}

/// Reads the command from the arguments that follow the program's name.
pub fn parse_command(args: &Vec<String>) -> (command: Result<Command, RagError>)
    ensures
        match command_of(arg_views(args@)) {
            Ok(model) => command is Ok && command->Ok_0@ == model,
            Err(error) => command is Err && command->Err_0 == error,
        },
{
    if args.len() == 0 {
        return Err(RagError::InvalidArgument);
    }
    let name = &args[0];
    if *name == String::from_str("ingest") {
        if args.len() >= 3 {
            Ok(Command::Ingest { path: args[1].clone(), patent_id: args[2].clone() })
        } else {
            Err(RagError::InvalidArgument)
        }
    } else if *name == String::from_str("embed") {
        Ok(Command::Embed)
    } else if *name == String::from_str("search") {
        if args.len() >= 2 {
            Ok(Command::Search { query: args[1].clone(), top_k: top_k_argument(args, 2) })
        } else {
            Err(RagError::InvalidArgument)
        }
    } else if *name == String::from_str("query") {
        if args.len() >= 2 {
            Ok(Command::Query { question: args[1].clone(), top_k: top_k_argument(args, 2) })
        } else {
            Err(RagError::InvalidArgument)
        }
    } else {
        Err(RagError::InvalidArgument)
    }
}

} // verus!
