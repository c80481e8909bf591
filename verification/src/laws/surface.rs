//! What the command line, the git commands and the reports come to.

use vstd::prelude::*;

use crate::cli::{
    default_options, early_exit_code, invocation, parse_from, takes_value, with_value, Format,
    InvocationModel, OptionsModel,
};
use crate::detect::FiredModel;
use crate::git::{diff_command, says_unknown_revision, DiffMode};
use crate::laws::text::law_contains_text;
use crate::report::{
    acked_text, decimal, digit, joined, markdown_report, match_lines, text_report, unacked_item,
    unacked_text,
};
use crate::verdict::VerdictModel;

verus! {

// ── Command line ─────────────────────────────────────────────────────────────

/// The flags, and the word for a request, are all different.
proof fn lemma_flags_differ()
    ensures
        "-h"@ != "--cached"@ && "--help"@ != "--cached"@,
        !takes_value("-h"@) && !takes_value("--help"@) && !takes_value("--cached"@),
        "--base"@ != "--commit-msg-file"@ && "--base"@ != "--registry"@,
        "--base"@ != "--repo-registry"@ && "--base"@ != "--format"@,
        "--commit-msg-file"@ != "--registry"@ && "--commit-msg-file"@ != "--repo-registry"@,
        "--commit-msg-file"@ != "--format"@ && "--registry"@ != "--repo-registry"@,
        "--registry"@ != "--format"@ && "--repo-registry"@ != "--format"@,
        "gate"@ != "-h"@ && "gate"@ != "--help"@ && "gate"@ != "--cached"@,
        !takes_value("gate"@),
        "text"@ != "json"@ && "text"@ != "markdown"@ && "json"@ != "markdown"@,
{
    reveal_strlit("-h");
    reveal_strlit("--help");
    reveal_strlit("--cached");
    reveal_strlit("--base");
    reveal_strlit("--commit-msg-file");
    reveal_strlit("--registry");
    reveal_strlit("--repo-registry");
    reveal_strlit("--format");
    reveal_strlit("gate");
    reveal_strlit("text");
    reveal_strlit("json");
    reveal_strlit("markdown");
    assert("-h"@.len() == 2 && "gate"@.len() == 4 && "--help"@.len() == 6);
    assert("--base"@.len() == 6 && "--cached"@.len() == 8 && "--format"@.len() == 8);
    assert("--registry"@.len() == 10 && "--repo-registry"@.len() == 15);
    assert("--commit-msg-file"@.len() == 17);
    assert("--help"@[2] != "--base"@[2]);
    assert("--cached"@[2] != "--format"@[2]);
    assert("text"@[0] != "json"@[0]);
    assert("text"@.len() == 4 && "markdown"@.len() == 8);
}

/// Arguments behind a command line that reads well are read with the options so far.
proof fn lemma_read_on(
    args: Seq<Seq<char>>,
    more: Seq<Seq<char>>,
    i: int,
    start: OptionsModel,
    options: OptionsModel,
)
    requires
        0 <= i <= args.len(),
        parse_from(args, i, start) == InvocationModel::Native(options),
    ensures
        parse_from(args + more, i, start) == parse_from(args + more, args.len() as int, options),
    decreases args.len() - i,
{
    if i < args.len() {
        let flag = args[i];
        assert((args + more)[i] == flag);
        if flag == "--cached"@ {
            lemma_read_on(args, more, i + 1, OptionsModel { cached: true, ..start }, options);
        } else {
            assert((args + more)[i + 1] == args[i + 1]);
            let next = with_value(start, flag, args[i + 1])->Some_0;
            lemma_read_on(args, more, i + 2, next, options);
        }
    }
}

/// Without arguments a run has the defaults.
pub proof fn law_default_options(program: Seq<char>)
    ensures
        invocation(seq![program]) == InvocationModel::Native(
            OptionsModel {
                base_ref: "origin/main"@,
                cached: false,
                commit_msg_file: None,
                registry: None,
                repo_registry: None,
                format: Format::Text,
            },
        ),
{
}

/// Each flag behind a command line sets its own option and leaves the others: the last
/// one counts.
pub proof fn law_one_more_flag(args: Seq<Seq<char>>, options: OptionsModel, value: Seq<char>)
    requires
        args.len() > 0,
        invocation(args) == InvocationModel::Native(options),
    ensures
        invocation(args + seq!["--cached"@]) == InvocationModel::Native(
            OptionsModel { cached: true, ..options },
        ),
        invocation(args + seq!["--base"@, value]) == InvocationModel::Native(
            OptionsModel { base_ref: value, ..options },
        ),
        invocation(args + seq!["--commit-msg-file"@, value]) == InvocationModel::Native(
            OptionsModel { commit_msg_file: Some(value), ..options },
        ),
        invocation(args + seq!["--registry"@, value]) == InvocationModel::Native(
            OptionsModel { registry: Some(value), ..options },
        ),
        invocation(args + seq!["--repo-registry"@, value]) == InvocationModel::Native(
            OptionsModel { repo_registry: Some(value), ..options },
        ),
        invocation(args + seq!["--format"@, "text"@]) == InvocationModel::Native(
            OptionsModel { format: Format::Text, ..options },
        ),
        invocation(args + seq!["--format"@, "json"@]) == InvocationModel::Native(
            OptionsModel { format: Format::Json, ..options },
        ),
        invocation(args + seq!["--format"@, "markdown"@]) == InvocationModel::Native(
            OptionsModel { format: Format::Markdown, ..options },
        ),
{
    lemma_flags_differ();
    lemma_one(args, "--cached"@, options);
    lemma_pair(args, "--base"@, value, options);
    lemma_pair(args, "--commit-msg-file"@, value, options);
    lemma_pair(args, "--registry"@, value, options);
    lemma_pair(args, "--repo-registry"@, value, options);
    lemma_pair(args, "--format"@, "text"@, options);
    lemma_pair(args, "--format"@, "json"@, options);
    lemma_pair(args, "--format"@, "markdown"@, options);
}

/// One more argument is read with the options so far.
proof fn lemma_one(args: Seq<Seq<char>>, x: Seq<char>, options: OptionsModel)
    requires
        args.len() > 0,
        invocation(args) == InvocationModel::Native(options),
        x != "gate"@ || args.len() > 1,
    ensures
        invocation(args + seq![x]) == (if x == "-h"@ || x == "--help"@ {
            InvocationModel::Help
        } else if x == "--cached"@ {
            InvocationModel::Native(OptionsModel { cached: true, ..options })
        } else if takes_value(x) {
            InvocationModel::Usage(x + " requires an argument"@)
        } else {
            InvocationModel::Usage("unknown flag '"@ + x + "'"@)
        }),
{
    let more = seq![x];
    let all = args + more;
    let n = args.len() as int;
    lemma_read_on(args, more, 1, default_options(), options);
    assert(all[n] == x);
    if args.len() > 1 {
        assert(all[1] == args[1]);
    }
    assert(all.len() == n + 1);
    reveal_with_fuel(parse_from, 2);
    assert(invocation(all) == parse_from(all, n, options));
}

/// A flag and its argument are read with the options so far.
proof fn lemma_pair(args: Seq<Seq<char>>, flag: Seq<char>, value: Seq<char>, options: OptionsModel)
    requires
        args.len() > 0,
        invocation(args) == InvocationModel::Native(options),
        takes_value(flag),
    ensures
        invocation(args + seq![flag, value]) == (match with_value(options, flag, value) {
            Some(next) => InvocationModel::Native(next),
            None => InvocationModel::Usage(
                "unknown format '"@ + value + "' (text|json|markdown)"@,
            ),
        }),
{
    lemma_flags_differ();
    let more = seq![flag, value];
    let all = args + more;
    let n = args.len() as int;
    lemma_read_on(args, more, 1, default_options(), options);
    assert(all[n] == flag);
    assert(all[n + 1] == value);
    if args.len() > 1 {
        assert(all[1] == args[1]);
    }
    assert(all.len() == n + 2);
    reveal_with_fuel(parse_from, 2);
    assert(invocation(all) == parse_from(all, n, options));
}

/// What ends the reading of a command line: help, a flag whose argument is missing, an
/// unknown format, and a word that is no flag.
pub proof fn law_reading_ends(args: Seq<Seq<char>>, options: OptionsModel, x: Seq<char>)
    requires
        args.len() > 0,
        invocation(args) == InvocationModel::Native(options),
    ensures
        invocation(args + seq!["-h"@]) == InvocationModel::Help,
        invocation(args + seq!["--help"@]) == InvocationModel::Help,
        x == "--base"@ || x == "--commit-msg-file"@ || x == "--registry"@ || x
            == "--repo-registry"@ || x == "--format"@ ==> invocation(args + seq![x])
            == InvocationModel::Usage(x + " requires an argument"@),
        x != "text"@ && x != "json"@ && x != "markdown"@ ==> invocation(
            args + seq!["--format"@, x],
        ) == InvocationModel::Usage("unknown format '"@ + x + "' (text|json|markdown)"@),
        x != "-h"@ && x != "--help"@ && x != "--cached"@ && x != "--base"@ && x
            != "--commit-msg-file"@ && x != "--registry"@ && x != "--repo-registry"@ && x
            != "--format"@ && (x != "gate"@ || args.len() > 1) ==> invocation(args + seq![x])
            == InvocationModel::Usage("unknown flag '"@ + x + "'"@),
{
    lemma_flags_differ();
    lemma_one(args, "-h"@, options);
    lemma_one(args, "--help"@, options);
    if x != "gate"@ || args.len() > 1 {
        lemma_one(args, x, options);
    }
    lemma_pair(args, "--format"@, x, options);
}

/// Once help is asked for, nothing that follows changes that.
pub proof fn law_help_stays(args: Seq<Seq<char>>, more: Seq<Seq<char>>)
    requires
        invocation(args) == InvocationModel::Help,
    ensures
        invocation(args + more) == InvocationModel::Help,
{
    if args.len() > 1 {
        assert((args + more)[1] == args[1]);
    }
    lemma_help_stays(args, more, 1, default_options());
}

/// Help that is asked for from `i` on is asked for whatever follows.
proof fn lemma_help_stays(
    args: Seq<Seq<char>>,
    more: Seq<Seq<char>>,
    i: int,
    options: OptionsModel,
)
    requires
        0 <= i,
        parse_from(args, i, options) == InvocationModel::Help,
    ensures
        parse_from(args + more, i, options) == InvocationModel::Help,
    decreases args.len() - i,
{
    if i < args.len() {
        let flag = args[i];
        assert((args + more)[i] == flag);
        if flag == "-h"@ || flag == "--help"@ {
        } else if flag == "--cached"@ {
            lemma_help_stays(args, more, i + 1, OptionsModel { cached: true, ..options });
        } else {
            assert((args + more)[i + 1] == args[i + 1]);
            let next = with_value(options, flag, args[i + 1])->Some_0;
            lemma_help_stays(args, more, i + 2, next);
        }
    }
}

/// A `gate` right behind the program's name asks for a request, whatever follows, and
/// nothing else does.
pub proof fn law_request_asked_for(args: Seq<Seq<char>>)
    ensures
        invocation(args) is Gate <==> args.len() > 1 && args[1] == "gate"@,
{
    lemma_no_request(args, 1, default_options());
}

/// Reading flags never asks for a request.
proof fn lemma_no_request(args: Seq<Seq<char>>, i: int, options: OptionsModel)
    ensures
        !(parse_from(args, i, options) is Gate),
    decreases args.len() - i,
{
    if i < args.len() {
        let flag = args[i];
        if flag == "--cached"@ {
            lemma_no_request(args, i + 1, OptionsModel { cached: true, ..options });
        } else if takes_value(flag) && i + 1 < args.len() {
            if let Some(next) = with_value(options, flag, args[i + 1]) {
                lemma_no_request(args, i + 2, next);
            }
        }
    }
}

/// Which command lines are done before anything is read, and with which exit code.
pub proof fn law_early_exits(why: Seq<char>, options: OptionsModel, off: bool)
    ensures
        early_exit_code(InvocationModel::Help, off) == Some(0i32),
        early_exit_code(InvocationModel::Usage(why), false) == Some(64i32),
        early_exit_code(InvocationModel::Usage(why), true) == Some(0i32),
        early_exit_code(InvocationModel::Native(options), true) == Some(0i32),
        early_exit_code(InvocationModel::Native(options), false) is None,
        early_exit_code(InvocationModel::Gate, off) is None,
{
}

// ── Git ──────────────────────────────────────────────────────────────────────

/// A diff is of unquoted paths, without rename detection and with all kinds of change,
/// prints what it is asked for, and goes from the base to `HEAD`, or looks at the staged
/// index where there is no base.
pub proof fn law_diff_command(base: Seq<char>, mode: DiffMode)
    ensures
        ({
            let from = diff_command(Some(base), mode);
            let staged = diff_command(None, mode);
            &&& from.len() == 7 && staged.len() == 7
            &&& from.take(6) == staged.take(6)
            &&& from[0] == "-c"@ && from[1] == "core.quotePath=false"@ && from[2] == "diff"@
            &&& mode == DiffMode::NameStatus ==> from[3] == "--name-status"@
            &&& mode == DiffMode::Unified ==> from[3] == "--unified=0"@
            &&& from[4] == "--diff-filter=ACDMRT"@ && from[5] == "--no-renames"@
            &&& from[6] == base + "..HEAD"@
            &&& staged[6] == "--cached"@
        }),
{
    assert(diff_command(Some(base), mode).take(6) =~= diff_command(None, mode).take(6));
}

/// Git does not know a revision when its error output holds either of two phrases.
pub proof fn law_unknown_revision(stderr: Seq<char>)
    ensures
        says_unknown_revision(stderr) <==> {
            ||| exists|a: Seq<char>, b: Seq<char>|
                stderr == #[trigger] (a + "unknown revision"@ + b)
            ||| exists|a: Seq<char>, b: Seq<char>| stderr == #[trigger] (a + "bad revision"@ + b)
        },
{
    law_contains_text(stderr, "unknown revision"@);
    law_contains_text(stderr, "bad revision"@);
}

// ── Reports ──────────────────────────────────────────────────────────────────

/// The number that a row of decimal digits stands for.
pub open spec fn number(digits: Seq<char>) -> nat
    decreases digits.len(),
{
    if digits.len() == 0 {
        0
    } else {
        number(digits.drop_last()) * 10 + (digits.last() as nat - '0' as nat) as nat
    }
}

/// A number in decimal is made of digits, stands for the number, and begins with `0` only
/// where it is zero.
pub proof fn law_decimal(n: nat)
    ensures
        decimal(n).len() > 0,
        forall|i: int| 0 <= i < decimal(n).len() ==> '0' <= #[trigger] decimal(n)[i] <= '9',
        number(decimal(n)) == n,
        n > 0 ==> decimal(n)[0] != '0',
        n == 0 ==> decimal(n) == seq!['0'],
    decreases n,
{
    let low = digit(n % 10);
    assert('0' <= low <= '9' && low as nat == '0' as nat + n % 10);
    if n < 10 {
        assert(decimal(n) =~= seq![low]);
        assert(seq![low].drop_last() =~= Seq::<char>::empty());
        assert(number(Seq::<char>::empty()) == 0);
        assert(seq![low].last() == low);
    } else {
        law_decimal(n / 10);
        assert(decimal(n) == decimal(n / 10).push(low));
        assert(decimal(n).drop_last() =~= decimal(n / 10));
        assert(decimal(n).last() == low);
    }
}

/// Joining puts texts one behind the other and adds nothing.
pub proof fn law_joined(a: Seq<Seq<char>>, b: Seq<Seq<char>>, text: Seq<char>)
    ensures
        joined(Seq::empty()) == Seq::<char>::empty(),
        joined(seq![text]) == text,
        joined(a + b) == joined(a) + joined(b),
    decreases b.len(),
{
    let none = Seq::<Seq<char>>::empty();
    assert(seq![text].drop_last() =~= none);
    assert(joined(none) =~= Seq::<char>::empty());
    assert(seq![text].last() == text);
    assert(joined(seq![text]) =~= text);
    if b.len() == 0 {
        assert(a + b =~= a);
        assert(joined(a + b) =~= joined(a) + joined(b));
    } else {
        law_joined(a, b.drop_last(), text);
        assert((a + b).drop_last() =~= a + b.drop_last());
        assert((a + b).last() == b.last());
        assert(joined(a + b) =~= joined(a) + joined(b));
    }
}

/// Each match has a line of its own.
pub proof fn law_match_lines(
    prefix: Seq<char>,
    a: Seq<Seq<char>>,
    b: Seq<Seq<char>>,
    m: Seq<char>,
    suffix: Seq<char>,
)
    ensures
        match_lines(prefix, Seq::empty(), suffix) == Seq::<char>::empty(),
        match_lines(prefix, seq![m], suffix) == prefix + m + suffix,
        match_lines(prefix, a + b, suffix) == match_lines(prefix, a, suffix) + match_lines(
            prefix,
            b,
            suffix,
        ),
{
    let f = |x: Seq<char>| prefix + x + suffix;
    let none = Seq::<Seq<char>>::empty();
    assert(none.map_values(f) =~= none);
    assert(seq![m].map_values(f) =~= seq![prefix + m + suffix]);
    assert((a + b).map_values(f) =~= a.map_values(f) + b.map_values(f));
    law_joined(a.map_values(f), b.map_values(f), prefix + m + suffix);
}

/// The text report: the three counts, then each fire that is not acknowledged with all
/// that it matched, then each that is.
pub proof fn law_text_report(v: VerdictModel)
    ensures
        v.fired.len() == 0 ==> text_report(v) == "No checkpoints fired.\n"@,
        v.fired.len() > 0 ==> text_report(v) == decimal(v.fired.len()) + " checkpoint(s) fired — "@
            + decimal(v.unacked.len()) + " unacked, "@ + decimal(v.acked.len()) + " acked\n"@
            + joined(
            v.unacked.map_values(
                |f: FiredModel|
                    "  UNACKED  "@ + f.name + " — "@ + f.summary + "\n"@ + match_lines(
                        "             matched: "@,
                        f.matched,
                        "\n"@,
                    ),
            ),
        ) + joined(
            v.acked.map_values(
                |f: FiredModel| "  acked    "@ + f.name + " — "@ + f.summary + "\n"@,
            ),
        ),
{
    assert(v.unacked.map_values(
        |f: FiredModel|
            "  UNACKED  "@ + f.name + " — "@ + f.summary + "\n"@ + match_lines(
                "             matched: "@,
                f.matched,
                "\n"@,
            ),
    ) =~= v.unacked.map_values(|f: FiredModel| unacked_text(f)));
    assert(v.acked.map_values(|f: FiredModel| "  acked    "@ + f.name + " — "@ + f.summary + "\n"@)
        =~= v.acked.map_values(|f: FiredModel| acked_text(f)));
}

/// The Markdown report: a title, the three counts, and each fire that is not acknowledged
/// with all that it matched.
pub proof fn law_markdown_report(v: VerdictModel)
    ensures
        v.fired.len() == 0 ==> markdown_report(v) == "## HITL Checkpoints\n\n"@
            + "No checkpoints fired.\n"@,
        v.fired.len() > 0 && v.unacked.len() == 0 ==> markdown_report(v)
            == "## HITL Checkpoints\n\n"@ + ("**"@ + decimal(v.fired.len()) + " fired — "@ + decimal(
            v.unacked.len(),
        ) + " unacked, "@ + decimal(v.acked.len()) + " acked**\n\n"@),
        v.fired.len() > 0 && v.unacked.len() > 0 ==> markdown_report(v)
            == "## HITL Checkpoints\n\n"@ + ("**"@ + decimal(v.fired.len()) + " fired — "@ + decimal(
            v.unacked.len(),
        ) + " unacked, "@ + decimal(v.acked.len()) + " acked**\n\n"@) + ("### Unacknowledged ("@
            + decimal(v.unacked.len()) + ")\n\n"@) + joined(
            v.unacked.map_values(
                |f: FiredModel|
                    "- **"@ + f.name + "** — "@ + f.summary + "\n"@ + match_lines(
                        "  - Matched: `"@,
                        f.matched,
                        "`\n"@,
                    ),
            ),
        ),
{
    assert(v.unacked.map_values(
        |f: FiredModel|
            "- **"@ + f.name + "** — "@ + f.summary + "\n"@ + match_lines(
                "  - Matched: `"@,
                f.matched,
                "`\n"@,
            ),
    ) =~= v.unacked.map_values(|f: FiredModel| unacked_item(f)));
}

} // verus!
