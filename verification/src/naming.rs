//! Deterministic log-file naming for the process launcher.
//!
//! Every background launch redirects the child's standard output and
//! standard error to a pair of log files. The file names are derived from a
//! sanitized identifier taken from the launch arguments (conventionally the
//! second argument, the module selector). Role-based launches use a fixed
//! per-role pair, overwritten on every relaunch; ad-hoc background launches
//! add a timestamp, so consecutive launches never share a pair.

use vstd::prelude::*;
use vstd::arithmetic::div_mod::lemma_fundamental_div_mod;
use vstd::string::StrSliceExecFns;
use vstd::string::StringExecFns;

verus! {

/// Whether `char::is_alphanumeric` accepts the character. The full Unicode
/// classification is not written out here; it is pinned down only on the
/// ASCII range, which is all the module names in play use.
pub uninterp spec fn is_alnum(c: char) -> bool;

/// Whether an ASCII character is a letter or a digit.
pub open spec fn is_ascii_alnum(c: char) -> bool {
    ('a' <= c && c <= 'z') || ('A' <= c && c <= 'Z') || ('0' <= c && c <= '9')
}

/// Relies on char::is_alphanumeric: the result depends on the character
/// alone, and on ASCII it accepts exactly the letters and digits.
#[verifier::external_body]
fn char_is_alphanumeric(c: char) -> (r: bool)
    ensures
        r == is_alnum(c),
        (c as u32) < 128 ==> r == is_ascii_alnum(c),
{
    c.is_alphanumeric()
}

/// Relies on String::push: appends exactly the one character.
#[verifier::external_body]
fn push_char(s: &mut String, c: char)
    ensures
        final(s)@ == old(s)@.push(c),
{
    s.push(c)
}

/// The sanitized form of an identifier: every character that is not
/// alphanumeric is replaced by an underscore.
pub open spec fn sanitize_spec(s: Seq<char>) -> Seq<char> {
    s.map_values(|c: char| if is_alnum(c) { c } else { '_' })
}

/// Replaces every non-alphanumeric character of `s` by an underscore.
pub fn sanitize_identifier(s: &str) -> (r: String)
    ensures
        r@ == sanitize_spec(s@),
{
    let n = s.unicode_len();
    let mut r = String::new();
    let mut i: usize = 0;
    while i < n
        invariant
            n == s@.len(),
            0 <= i <= n,
            r@.len() == i,
            forall|j: int|
                0 <= j < i ==> r@[j] == (if is_alnum(s@[j]) {
                    s@[j]
                } else {
                    '_'
                }),
        decreases n - i,
    {
        let c = s.get_char(i);
        if char_is_alphanumeric(c) {
            push_char(&mut r, c);
        } else {
            push_char(&mut r, '_');
        }
        i = i + 1;
    }
    proof {
        assert(r@ =~= sanitize_spec(s@));
    }
    r
}

/// The identifier a launch's log files are named after: the sanitized
/// second argument (the module selector), or a fixed marker when the
/// argument list carries no such argument.
pub open spec fn identifier_spec(args: Seq<Seq<char>>) -> Seq<char> {
    if args.len() >= 2 {
        sanitize_spec(args[1])
    } else {
        "no_args"@
    }
}

/// Extracts and sanitizes the log-file identifier from the launch
/// arguments.
pub fn args_identifier(args: &Vec<String>) -> (r: String)
    ensures
        r@ == identifier_spec(args.deep_view()),
{
    proof {
        assert(args.deep_view().len() == args@.len());
    }
    if args.len() >= 2 {
        proof {
            assert(args.deep_view()[1] == args@[1]@);
        }
        sanitize_identifier(args[1].as_str())
    } else {
        String::from_str("no_args")
    }
}

/// The decimal digit characters, least significant last, of `n`.
pub open spec fn dec_str(n: nat) -> Seq<char>
    decreases n,
{
    if n < 10 {
        seq![digit_char(n)]
    } else {
        dec_str(n / 10).push(digit_char(n % 10))
    }
}

/// The character for one decimal digit.
pub open spec fn digit_char(d: nat) -> char
    recommends
        d < 10,
{
    if d == 0 {
        '0'
    } else if d == 1 {
        '1'
    } else if d == 2 {
        '2'
    } else if d == 3 {
        '3'
    } else if d == 4 {
        '4'
    } else if d == 5 {
        '5'
    } else if d == 6 {
        '6'
    } else if d == 7 {
        '7'
    } else if d == 8 {
        '8'
    } else {
        '9'
    }
}

fn digit_to_char(d: u64) -> (c: char)
    requires
        d < 10,
    ensures
        c == digit_char(d as nat),
{
    if d == 0 {
        '0'
    } else if d == 1 {
        '1'
    } else if d == 2 {
        '2'
    } else if d == 3 {
        '3'
    } else if d == 4 {
        '4'
    } else if d == 5 {
        '5'
    } else if d == 6 {
        '6'
    } else if d == 7 {
        '7'
    } else if d == 8 {
        '8'
    } else {
        '9'
    }
}

/// Renders `n` in decimal, for timestamps and process identifiers.
pub fn u64_to_decimal(n: u64) -> (r: String)
    ensures
        r@ == dec_str(n as nat),
    decreases n,
{
    if n < 10 {
        let mut r = String::new();
        push_char(&mut r, digit_to_char(n));
        proof {
            assert(r@ =~= dec_str(n as nat));
        }
        r
    } else {
        let mut r = u64_to_decimal(n / 10);
        push_char(&mut r, digit_to_char(n % 10));
        r
    }
}

/// The standard-output log name of a role-based launch: fixed per role,
/// overwritten on every relaunch.
pub open spec fn role_log_name(ident: Seq<char>) -> Seq<char> {
    "python_bg_"@ + ident + ".log"@
}

/// The standard-error log name of a role-based launch.
pub open spec fn role_error_log_name(ident: Seq<char>) -> Seq<char> {
    "python_bg_"@ + ident + "_error.log"@
}

/// The standard-output log name of an ad-hoc background launch: unique per
/// timestamp.
pub open spec fn timed_log_name(ident: Seq<char>, ts: nat) -> Seq<char> {
    "python_bg_"@ + ident + "_"@ + dec_str(ts) + ".log"@
}

/// The standard-error log name of an ad-hoc background launch.
pub open spec fn timed_error_log_name(ident: Seq<char>, ts: nat) -> Seq<char> {
    "python_bg_"@ + ident + "_"@ + dec_str(ts) + "_error.log"@
}

/// The log-file pair of one background launch: one file for standard
/// output, one for standard error.
pub struct LogNamePair {
    pub output_name: String,
    pub error_name: String,
}

/// The fixed log-file pair of a role-based launch.
pub fn role_log_names(args: &Vec<String>) -> (r: LogNamePair)
    ensures
        r.output_name@ == role_log_name(identifier_spec(args.deep_view())),
        r.error_name@ == role_error_log_name(identifier_spec(args.deep_view())),
{
    let ident = args_identifier(args);
    let mut output_name = String::from_str("python_bg_");
    output_name.append(ident.as_str());
    output_name.append(".log");
    let mut error_name = String::from_str("python_bg_");
    error_name.append(ident.as_str());
    error_name.append("_error.log");
    LogNamePair { output_name, error_name }
}

/// The timestamped log-file pair of an ad-hoc background launch.
pub fn background_log_names(args: &Vec<String>, timestamp: u64) -> (r: LogNamePair)
    ensures
        r.output_name@ == timed_log_name(identifier_spec(args.deep_view()), timestamp as nat),
        r.error_name@ == timed_error_log_name(
            identifier_spec(args.deep_view()),
            timestamp as nat,
        ),
{
    let ident = args_identifier(args);
    let ts = u64_to_decimal(timestamp);
    let mut output_name = String::from_str("python_bg_");
    output_name.append(ident.as_str());
    output_name.append("_");
    output_name.append(ts.as_str());
    output_name.append(".log");
    let mut error_name = String::from_str("python_bg_");
    error_name.append(ident.as_str());
    error_name.append("_");
    error_name.append(ts.as_str());
    error_name.append("_error.log");
    LogNamePair { output_name, error_name }
}

/// Concatenation with a shared prefix and a shared suffix determines the
/// middle part.
proof fn lemma_concat_middle_cancel(p: Seq<char>, x: Seq<char>, y: Seq<char>, s: Seq<char>)
    requires
        p + x + s == p + y + s,
    ensures
        x == y,
{
    assert((p + x + s).len() == p.len() + x.len() + s.len());
    assert((p + y + s).len() == p.len() + y.len() + s.len());
    assert(x.len() == y.len());
    assert forall|i: int| 0 <= i < x.len() implies x[i] == y[i] by {
        assert((p + x + s)[p.len() + i] == x[i]);
        assert((p + y + s)[p.len() + i] == y[i]);
    }
    assert(x =~= y);
}

proof fn lemma_dec_str_len(n: nat)
    ensures
        dec_str(n).len() >= 1,
        n >= 10 ==> dec_str(n).len() >= 2,
    decreases n,
{
    if n >= 10 {
        lemma_dec_str_len(n / 10);
    }
}

/// Distinct numbers render to distinct decimal strings.
pub proof fn lemma_dec_str_injective(a: nat, b: nat)
    requires
        dec_str(a) == dec_str(b),
    ensures
        a == b,
    decreases a,
{
    if a < 10 && b < 10 {
        assert(dec_str(a) == seq![digit_char(a)]);
        assert(dec_str(b) == seq![digit_char(b)]);
        assert(seq![digit_char(a)][0] == digit_char(a));
        assert(seq![digit_char(b)][0] == digit_char(b));
        assert(digit_char(a) == digit_char(b));
        assert(a == b);
    } else if a < 10 {
        lemma_dec_str_len(b);
        assert(dec_str(a).len() == 1);
    } else if b < 10 {
        lemma_dec_str_len(a);
        assert(dec_str(b).len() == 1);
    } else {
        let sa = dec_str(a / 10);
        let sb = dec_str(b / 10);
        let da = digit_char(a % 10);
        let db = digit_char(b % 10);
        assert(sa.push(da) == sb.push(db));
        assert(sa.push(da).len() == sa.len() + 1);
        assert(sa.len() == sb.len());
        assert(sa.push(da)[sa.len() as int] == da);
        assert(sb.push(db)[sb.len() as int] == db);
        assert(da == db);
        assert(a % 10 == b % 10);
        assert forall|i: int| 0 <= i < sa.len() implies sa[i] == sb[i] by {
            assert(sa.push(da)[i] == sa[i]);
            assert(sb.push(db)[i] == sb[i]);
        }
        assert(sa =~= sb);
        lemma_dec_str_injective(a / 10, b / 10);
        assert(a / 10 == b / 10);
        lemma_fundamental_div_mod(a as int, 10);
        lemma_fundamental_div_mod(b as int, 10);
        assert(a as int == 10 * ((a as int) / 10) + ((a as int) % 10));
        assert(a == b);
    }
}

/// Background launch isolation: two launches with the same arguments but
/// different timestamps write to fully distinct log-file pairs. (Role-based
/// launches carry no timestamp, so a relaunch of a role reuses exactly the
/// pair its previous run used.)
pub proof fn lemma_background_names_distinct(args: Seq<Seq<char>>, ts1: nat, ts2: nat)
    requires
        ts1 != ts2,
    ensures
        timed_log_name(identifier_spec(args), ts1) != timed_log_name(identifier_spec(args), ts2),
        timed_error_log_name(identifier_spec(args), ts1) != timed_error_log_name(
            identifier_spec(args),
            ts2,
        ),
{
    let p = "python_bg_"@ + identifier_spec(args) + "_"@;
    if timed_log_name(identifier_spec(args), ts1) == timed_log_name(identifier_spec(args), ts2) {
        lemma_concat_middle_cancel(p, dec_str(ts1), dec_str(ts2), ".log"@);
        lemma_dec_str_injective(ts1, ts2);
    }
    if timed_error_log_name(identifier_spec(args), ts1) == timed_error_log_name(
        identifier_spec(args),
        ts2,
    ) {
        lemma_concat_middle_cancel(p, dec_str(ts1), dec_str(ts2), "_error.log"@);
        lemma_dec_str_injective(ts1, ts2);
    }
}

} // verus!
