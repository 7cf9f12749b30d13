//! What the job watcher asks `squeue` for and how it reads the answer.
use vstd::prelude::*;

use crate::app::{jobs_view, Job, JobView};
use crate::text::{
    append_str, chars_of, join, join_strings, lemma_split_char_nonempty, line_ranges, ranges_view,
    push_char, same_text, split_char, split_ranges, split_str, split_str_ranges, std_lines,
    string_from_chars,
    strings_view, trim, trim_range,
};

verus! {

/// The marker that separates the fields of a job in `squeue` output.
pub open spec fn output_separator() -> Seq<char> {
    "###turm###"@
}

/// The `squeue --Format` fields asked for, in the order the parser reads them.
pub open spec fn squeue_fields() -> Seq<Seq<char>> {
    seq![
        "jobid"@,
        "name"@,
        "state"@,
        "username"@,
        "timeused"@,
        "timelimit"@,
        "StartTime"@,
        "tres-alloc"@,
        "partition"@,
        "nodelist"@,
        "stdout"@,
        "stderr"@,
        "command"@,
        "statecompact"@,
        "reason"@,
        "ArrayJobID"@,
        "ArrayTaskID"@,
        "NodeList"@,
        "WorkDir"@,
    ]
}

/// The `--Format` value: each field as `<field>:<separator>`, joined by commas.
pub open spec fn squeue_format() -> Seq<char> {
    join(squeue_fields().map_values(|f: Seq<char>| f + ":"@ + output_separator()), ","@)
}

fn field_names() -> (r: Vec<String>)
    ensures
        strings_view(r@) == squeue_fields(),
{
    let mut r: Vec<String> = Vec::new();
    r.push(String::from_str("jobid"));
    r.push(String::from_str("name"));
    r.push(String::from_str("state"));
    r.push(String::from_str("username"));
    r.push(String::from_str("timeused"));
    r.push(String::from_str("timelimit"));
    r.push(String::from_str("StartTime"));
    r.push(String::from_str("tres-alloc"));
    r.push(String::from_str("partition"));
    r.push(String::from_str("nodelist"));
    r.push(String::from_str("stdout"));
    r.push(String::from_str("stderr"));
    r.push(String::from_str("command"));
    r.push(String::from_str("statecompact"));
    r.push(String::from_str("reason"));
    r.push(String::from_str("ArrayJobID"));
    r.push(String::from_str("ArrayTaskID"));
    r.push(String::from_str("NodeList"));
    r.push(String::from_str("WorkDir"));
    proof {
        assert(strings_view(r@) =~= squeue_fields());
    }
    r
}

/// The `--Format` value for `squeue` (see `squeue_format`).
pub fn squeue_format_arg() -> (r: String)
    ensures
        r@ == squeue_format(),
{
    let names = field_names();
    let mut items: Vec<String> = Vec::new();
    let mut i: usize = 0;
    while i < names.len()
        invariant
            i <= names@.len(),
            strings_view(names@) == squeue_fields(),
            strings_view(items@) == squeue_fields().take(i as int).map_values(
                |f: Seq<char>| f + ":"@ + output_separator(),
            ),
        decreases names@.len() - i,
    {
        let ghost before = strings_view(items@);
        let mut item = names[i].clone();
        append_str(&mut item, ":");
        append_str(&mut item, "###turm###");
        items.push(item);
        proof {
            assert(strings_view(items@) =~= before.push(names@[i as int]@ + ":"@ + "###turm###"@));
            assert(strings_view(names@)[i as int] == names@[i as int]@);
            assert(strings_view(items@) =~= squeue_fields().take(i + 1).map_values(
                |f: Seq<char>| f + ":"@ + output_separator(),
            ));
        }
        i = i + 1;
    }
    proof {
        assert(squeue_fields().take(i as int) =~= squeue_fields());
        assert(items@.map_values(|p: String| p@) =~= strings_view(items@));
    }
    join_strings(&items, ",")
}

/// The arguments for one `squeue` run: the user's options, then the ones that
/// select array tasks, drop the header and ask for the fields to parse.
pub fn squeue_command_args(squeue_args: &Vec<String>) -> (r: Vec<String>)
    ensures
        strings_view(r@) == strings_view(squeue_args@) + seq![
            "--array"@,
            "--noheader"@,
            "--Format"@,
            squeue_format(),
        ],
{
    let mut r: Vec<String> = Vec::new();
    let mut i: usize = 0;
    while i < squeue_args.len()
        invariant
            i <= squeue_args@.len(),
            strings_view(r@) == strings_view(squeue_args@).take(i as int),
        decreases squeue_args@.len() - i,
    {
        let ghost before = strings_view(r@);
        r.push(squeue_args[i].clone());
        proof {
            assert(strings_view(r@) =~= before.push(squeue_args@[i as int]@));
            assert(strings_view(r@) =~= strings_view(squeue_args@).take(i + 1));
        }
        i = i + 1;
    }
    r.push(String::from_str("--array"));
    r.push(String::from_str("--noheader"));
    r.push(String::from_str("--Format"));
    r.push(squeue_format_arg());
    proof {
        assert(strings_view(squeue_args@).take(i as int) =~= strings_view(squeue_args@));
        assert(strings_view(r@) =~= strings_view(squeue_args@) + seq![
            "--array"@,
            "--noheader"@,
            "--Format"@,
            squeue_format(),
        ]);
    }
    r
}

/// The value Slurm reports for "no array task" in file name patterns.
pub open spec fn no_array_value() -> Seq<char> {
    "4294967294"@
}

/// The characters that may follow `%` in a Slurm file name pattern.
pub open spec fn is_pattern_code(c: char) -> bool {
    c == '%' || c == 'A' || c == 'a' || c == 'J' || c == 'j' || c == 'N' || c == 'n' || c == 's'
        || c == 't' || c == 'u' || c == 'x'
}

/// The job values that file name patterns refer to.
pub struct FilenameContext {
    /// The array's master job id (`%A`).
    pub array_master: String,
    /// The array task id, or the "no array task" value (`%a`).
    pub array_id: String,
    /// The job id (`%J`, `%j`).
    pub id: String,
    /// The job's node list; its first node stands for `%N`.
    pub host: String,
    /// The user name (`%u`).
    pub user: String,
    /// The job name (`%x`).
    pub name: String,
}

pub ghost struct FilenameContextView {
    pub array_master: Seq<char>,
    pub array_id: Seq<char>,
    pub id: Seq<char>,
    pub host: Seq<char>,
    pub user: Seq<char>,
    pub name: Seq<char>,
}

impl View for FilenameContext {
    type V = FilenameContextView;

    open spec fn view(&self) -> FilenameContextView {
        FilenameContextView {
            array_master: self.array_master@,
            array_id: self.array_id@,
            id: self.id@,
            host: self.host@,
            user: self.user@,
            name: self.name@,
        }
    }
}

/// What `%<code>` stands for in a file name pattern.
pub open spec fn pattern_value(ctx: FilenameContextView, code: char) -> Seq<char> {
    if code == '%' {
        "%"@
    } else if code == 'A' {
        ctx.array_master
    } else if code == 'a' {
        ctx.array_id
    } else if code == 'J' || code == 'j' {
        ctx.id
    } else if code == 'N' {
        split_char(ctx.host, ',')[0]
    } else if code == 'n' || code == 't' {
        "0"@
    } else if code == 's' {
        "batch"@
    } else if code == 'u' {
        ctx.user
    } else {
        ctx.name
    }
}

/// `s` with every pattern `%<code>` replaced by what it stands for, the
/// patterns found from the left without overlapping.
pub open spec fn substitute_patterns(s: Seq<char>, ctx: FilenameContextView) -> Seq<char>
    decreases s.len(),
{
    if s.len() == 0 {
        s
    } else if s.len() >= 2 && s[0] == '%' && is_pattern_code(s[1]) {
        pattern_value(ctx, s[1]) + substitute_patterns(s.skip(2), ctx)
    } else {
        seq![s[0]] + substitute_patterns(s.drop_first(), ctx)
    }
}

/// The text before the first comma of `s` (all of `s` when it has none).
pub fn first_comma_piece(s: &str) -> (r: String)
    ensures
        r@ == split_char(s@, ',')[0],
{
    let cs = chars_of(s);
    let parts = split_ranges(&cs, 0, cs.len(), ',');
    proof {
        assert(cs@.subrange(0, cs@.len() as int) =~= s@);
        lemma_split_char_nonempty(s@, ',');
        assert(ranges_view(cs@, parts@)[0] == cs@.subrange(parts@[0].0 as int, parts@[0].1 as int));
    }
    let (a, b) = parts[0];
    string_from_chars(&cs, a, b)
}

/// Whether `c` may follow `%` in a file name pattern (see `is_pattern_code`).
fn is_pattern_code_char(c: char) -> (r: bool)
    ensures
        r == is_pattern_code(c),
{
    c == '%' || c == 'A' || c == 'a' || c == 'J' || c == 'j' || c == 'N' || c == 'n' || c == 's'
        || c == 't' || c == 'u' || c == 'x'
}

/// What the pattern `%<code>` stands for.
pub fn pattern_value_of(ctx: &FilenameContext, code: char) -> (r: String)
    requires
        is_pattern_code(code),
    ensures
        r@ == pattern_value(ctx@, code),
{
    if code == '%' {
        String::from_str("%")
    } else if code == 'A' {
        ctx.array_master.clone()
    } else if code == 'a' {
        ctx.array_id.clone()
    } else if code == 'J' || code == 'j' {
        ctx.id.clone()
    } else if code == 'N' {
        first_comma_piece(ctx.host.as_str())
    } else if code == 'n' || code == 't' {
        String::from_str("0")
    } else if code == 's' {
        String::from_str("batch")
    } else if code == 'u' {
        ctx.user.clone()
    } else {
        ctx.name.clone()
    }
}

/// Replaces the Slurm file name patterns in `path` (see
/// `substitute_patterns`): scanning from the left, each `%` followed by a
/// pattern code is replaced by what it stands for, and scanning goes on
/// after the code; every other character is kept.
pub fn substitute_filename_patterns(path: &str, ctx: &FilenameContext) -> (r: String)
    ensures
        r@ == substitute_patterns(path@, ctx@),
{
    let cs = chars_of(path);
    let n = cs.len();
    let mut r = String::new();
    let mut i: usize = 0;
    proof {
        assert(cs@.skip(0) =~= cs@);
    }
    while i < n
        invariant
            i <= n,
            n == cs@.len(),
            cs@ == path@,
            r@ + substitute_patterns(cs@.skip(i as int), ctx@) == substitute_patterns(cs@, ctx@),
        decreases n - i,
    {
        let ghost t = cs@.skip(i as int);
        let ghost before = r@;
        if i + 1 < n && cs[i] == '%' && is_pattern_code_char(cs[i + 1]) {
            let v = pattern_value_of(ctx, cs[i + 1]);
            append_str(&mut r, v.as_str());
            proof {
                assert(t[0] == cs@[i as int] && t[1] == cs@[i + 1]);
                assert(t.skip(2) =~= cs@.skip(i + 2));
                assert(substitute_patterns(t, ctx@) == pattern_value(ctx@, t[1])
                    + substitute_patterns(t.skip(2), ctx@));
                assert(before + (v@ + substitute_patterns(cs@.skip(i + 2), ctx@)) =~= r@
                    + substitute_patterns(cs@.skip(i + 2), ctx@));
            }
            i = i + 2;
        } else {
            let c = cs[i];
            push_char(&mut r, c);
            proof {
                assert(t[0] == c);
                assert(t.drop_first() =~= cs@.skip(i + 1));
                if t.len() >= 2 {
                    assert(t[1] == cs@[i + 1]);
                }
                assert(substitute_patterns(t, ctx@) == seq![c] + substitute_patterns(
                    t.drop_first(),
                    ctx@,
                ));
                assert(before + (seq![c] + substitute_patterns(cs@.skip(i + 1), ctx@)) =~= r@
                    + substitute_patterns(cs@.skip(i + 1), ctx@));
            }
            i = i + 1;
        }
    }
    proof {
        assert(cs@.skip(i as int) =~= Seq::<char>::empty());
        assert(r@ + Seq::<char>::empty() =~= r@);
    }
    r
}

/// `p` relative to the directory `base`, as a Unix path: an absolute `p`
/// stands alone, otherwise a `/` goes between them unless `base` is empty or
/// already ends with one.
pub open spec fn path_join(base: Seq<char>, p: Seq<char>) -> Seq<char> {
    if p.len() > 0 && p[0] == '/' {
        p
    } else if base.len() == 0 {
        p
    } else if base.last() == '/' {
        base + p
    } else {
        base + "/"@ + p
    }
}

/// `p` relative to the directory `base` (see `path_join`).
pub fn join_path(base: &str, p: &str) -> (r: String)
    ensures
        r@ == path_join(base@, p@),
{
    let pl = p.unicode_len();
    let bl = base.unicode_len();
    if pl > 0 && p.get_char(0) == '/' {
        String::from_str(p)
    } else if bl == 0 {
        String::from_str(p)
    } else if base.get_char(bl - 1) == '/' {
        String::from_str(base).concat(p)
    } else {
        String::from_str(base).concat("/").concat(p)
    }
}

/// Where a job's output goes: the file name pattern `path` (or, when it is
/// empty, Slurm's default `slurm-%J.out` or `slurm-%A_%a.out` in the working
/// directory) with its patterns replaced, relative to the working directory.
pub open spec fn resolved_path(
    path: Seq<char>,
    array_master: Seq<char>,
    array_id: Seq<char>,
    id: Seq<char>,
    host: Seq<char>,
    user: Seq<char>,
    name: Seq<char>,
    working_dir: Seq<char>,
) -> Seq<char> {
    let aid = if array_id == "N/A"@ {
        no_array_value()
    } else {
        array_id
    };
    let pattern = if path.len() == 0 {
        path_join(
            working_dir,
            if aid == no_array_value() {
                "slurm-%J.out"@
            } else {
                "slurm-%A_%a.out"@
            },
        )
    } else {
        path
    };
    let ctx = FilenameContextView { array_master, array_id: aid, id, host, user, name };
    path_join(working_dir, substitute_patterns(pattern, ctx))
}

/// The file a job writes its output to (see `resolved_path`); always found.
pub fn resolve_path(
    path: &str,
    array_master: &str,
    array_id: &str,
    id: &str,
    host: &str,
    user: &str,
    name: &str,
    working_dir: &str,
) -> (r: Option<String>)
    ensures
        r matches Some(p) && p@ == resolved_path(
            path@,
            array_master@,
            array_id@,
            id@,
            host@,
            user@,
            name@,
            working_dir@,
        ),
{
    let aid = if same_text(array_id, "N/A") {
        String::from_str("4294967294")
    } else {
        String::from_str(array_id)
    };
    let pattern = if path.unicode_len() == 0 {
        if same_text(aid.as_str(), "4294967294") {
            join_path(working_dir, "slurm-%J.out")
        } else {
            join_path(working_dir, "slurm-%A_%a.out")
        }
    } else {
        String::from_str(path)
    };
    let ctx = FilenameContext {
        array_master: String::from_str(array_master),
        array_id: aid,
        id: String::from_str(id),
        host: String::from_str(host),
        user: String::from_str(user),
        name: String::from_str(name),
    };
    let substituted = substitute_filename_patterns(pattern.as_str(), &ctx);
    Some(join_path(working_dir, substituted.as_str()))
}

proof fn lemma_substitute_without_patterns(s: Seq<char>, ctx: FilenameContextView)
    requires
        forall|i: int| 0 <= i < s.len() ==> s[i] != '%',
    ensures
        substitute_patterns(s, ctx) == s,
    decreases s.len(),
{
    if s.len() > 0 {
        let t = s.drop_first();
        assert forall|i: int| 0 <= i < t.len() implies t[i] != '%' by {
            assert(t[i] == s[i + 1]);
        }
        lemma_substitute_without_patterns(t, ctx);
        assert(seq![s[0]] + t =~= s);
    }
}

/// An absolute output path without `%` patterns is used as it is, whatever
/// the working directory.
pub proof fn lemma_absolute_path_kept(
    path: Seq<char>,
    array_master: Seq<char>,
    array_id: Seq<char>,
    id: Seq<char>,
    host: Seq<char>,
    user: Seq<char>,
    name: Seq<char>,
    working_dir: Seq<char>,
)
    requires
        path.len() > 0,
        path[0] == '/',
        forall|i: int| 0 <= i < path.len() ==> path[i] != '%',
    ensures
        resolved_path(path, array_master, array_id, id, host, user, name, working_dir) == path,
{
    let aid = if array_id == "N/A"@ {
        no_array_value()
    } else {
        array_id
    };
    let ctx = FilenameContextView { array_master, array_id: aid, id, host, user, name };
    lemma_substitute_without_patterns(path, ctx);
}

/// The length and first and fourth characters of a field name: enough to
/// tell the asked-for fields apart.
spec fn field_key(f: Seq<char>) -> (nat, char, char) {
    (f.len(), f[0], f[3])
}

proof fn lemma_squeue_fields_distinct(i: int, k: int)
    requires
        0 <= i < 19,
        0 <= k < 19,
        squeue_fields()[i] == squeue_fields()[k],
    ensures
        i == k,
{
    reveal_strlit("jobid");
    reveal_strlit("name");
    reveal_strlit("state");
    reveal_strlit("username");
    reveal_strlit("timeused");
    reveal_strlit("timelimit");
    reveal_strlit("StartTime");
    reveal_strlit("tres-alloc");
    reveal_strlit("partition");
    reveal_strlit("nodelist");
    reveal_strlit("stdout");
    reveal_strlit("stderr");
    reveal_strlit("command");
    reveal_strlit("statecompact");
    reveal_strlit("reason");
    reveal_strlit("ArrayJobID");
    reveal_strlit("ArrayTaskID");
    reveal_strlit("NodeList");
    reveal_strlit("WorkDir");
    let f = squeue_fields();
    let keys = seq![
        (5nat, 'j', 'i'),
        (4nat, 'n', 'e'),
        (5nat, 's', 't'),
        (8nat, 'u', 'r'),
        (8nat, 't', 'e'),
        (9nat, 't', 'e'),
        (9nat, 'S', 'r'),
        (10nat, 't', 's'),
        (9nat, 'p', 't'),
        (8nat, 'n', 'e'),
        (6nat, 's', 'o'),
        (6nat, 's', 'e'),
        (7nat, 'c', 'm'),
        (12nat, 's', 't'),
        (6nat, 'r', 's'),
        (10nat, 'A', 'a'),
        (11nat, 'A', 'a'),
        (8nat, 'N', 'e'),
        (7nat, 'W', 'k'),
    ];
    assert forall|x: int| 0 <= x < 19 implies field_key(#[trigger] f[x]) == keys[x] by {
        assert(x == 0 || x == 1 || x == 2 || x == 3 || x == 4 || x == 5 || x == 6 || x == 7 || x
            == 8 || x == 9 || x == 10 || x == 11 || x == 12 || x == 13 || x == 14 || x == 15 || x
            == 16 || x == 17 || x == 18);
    }
    assert(field_key(f[i]) == field_key(f[k]));
    assert(i == 0 || i == 1 || i == 2 || i == 3 || i == 4 || i == 5 || i == 6 || i == 7 || i == 8
        || i == 9 || i == 10 || i == 11 || i == 12 || i == 13 || i == 14 || i == 15 || i == 16
        || i == 17 || i == 18);
}

/// The field of a split `squeue` line that holds the `--Format` field `name`.
pub open spec fn field_of(p: Seq<Seq<char>>, name: Seq<char>) -> Seq<char> {
    p[squeue_fields().index_of(name)]
}

proof fn lemma_field_index(name: Seq<char>, k: int)
    requires
        0 <= k < 19,
        squeue_fields()[k] == name,
    ensures
        squeue_fields().index_of(name) == k,
{
    let i = squeue_fields().index_of(name);
    assert(0 <= i < squeue_fields().len() && squeue_fields()[i] == name);
    lemma_squeue_fields_distinct(i, k);
}

/// Each field of a job read from an `squeue` line comes from the field that
/// `squeue` printed for the `--Format` name asking for it: the job id from
/// `jobid`, the time used from `timeused`, the time limit from `timelimit`,
/// and so on; `reason` and `ArrayTaskID` give none for `None` and `N/A`, and
/// the output paths are `stdout` and `stderr` resolved with the job's array,
/// id, node, user, name and working directory fields.
pub proof fn lemma_job_fields_by_name(l: Seq<char>)
    requires
        split_str(trim(l), output_separator()).len() == 20,
    ensures
        ({
            let p = split_str(trim(l), output_separator());
            let f = |name: Seq<char>| field_of(p, name);
            let task = f("ArrayTaskID"@);
            let reason = f("reason"@);
            parse_squeue_line(l) matches Some(j) && {
                &&& j.job_id == f("jobid"@)
                &&& j.name == f("name"@)
                &&& j.state == f("state"@)
                &&& j.user == f("username"@)
                &&& j.time == f("timeused"@)
                &&& j.time_limit == f("timelimit"@)
                &&& j.start_time == f("StartTime"@)
                &&& j.tres == f("tres-alloc"@)
                &&& j.partition == f("partition"@)
                &&& j.nodelist == f("nodelist"@)
                &&& j.command == f("command"@)
                &&& j.state_compact == f("statecompact"@)
                &&& j.array_id == f("ArrayJobID"@)
                &&& j.array_step == (if task == "N/A"@ {
                    None
                } else {
                    Some(task)
                })
                &&& j.reason == (if reason == "None"@ {
                    None
                } else {
                    Some(reason)
                })
                &&& j.stdout == Some(
                    resolved_path(
                        f("stdout"@),
                        f("ArrayJobID"@),
                        task,
                        f("jobid"@),
                        f("NodeList"@),
                        f("username"@),
                        f("name"@),
                        f("WorkDir"@),
                    ),
                )
                &&& j.stderr == Some(
                    resolved_path(
                        f("stderr"@),
                        f("ArrayJobID"@),
                        task,
                        f("jobid"@),
                        f("NodeList"@),
                        f("username"@),
                        f("name"@),
                        f("WorkDir"@),
                    ),
                )
            }
        }),
{
    let fs = squeue_fields();
    lemma_field_index("jobid"@, 0);
    lemma_field_index("name"@, 1);
    lemma_field_index("state"@, 2);
    lemma_field_index("username"@, 3);
    lemma_field_index("timeused"@, 4);
    lemma_field_index("timelimit"@, 5);
    lemma_field_index("StartTime"@, 6);
    lemma_field_index("tres-alloc"@, 7);
    lemma_field_index("partition"@, 8);
    lemma_field_index("nodelist"@, 9);
    lemma_field_index("stdout"@, 10);
    lemma_field_index("stderr"@, 11);
    lemma_field_index("command"@, 12);
    lemma_field_index("statecompact"@, 13);
    lemma_field_index("reason"@, 14);
    lemma_field_index("ArrayJobID"@, 15);
    lemma_field_index("ArrayTaskID"@, 16);
    lemma_field_index("NodeList"@, 17);
    lemma_field_index("WorkDir"@, 18);
}

/// The job that one `squeue` line describes, given its 20 fields (the 19
/// asked for and what follows the last separator).
pub open spec fn job_from_fields(p: Seq<Seq<char>>) -> JobView {
    let id = p[0];
    let name = p[1];
    let user = p[3];
    let array_job_id = p[15];
    let array_task_id = p[16];
    let node_list = p[17];
    let working_dir = p[18];
    JobView {
        job_id: id,
        array_id: array_job_id,
        array_step: if array_task_id == "N/A"@ {
            None
        } else {
            Some(array_task_id)
        },
        name,
        state: p[2],
        state_compact: p[13],
        reason: if p[14] == "None"@ {
            None
        } else {
            Some(p[14])
        },
        user,
        time: p[4],
        time_limit: p[5],
        start_time: p[6],
        tres: p[7],
        partition: p[8],
        nodelist: p[9],
        stdout: Some(
            resolved_path(
                p[10],
                array_job_id,
                array_task_id,
                id,
                node_list,
                user,
                name,
                working_dir,
            ),
        ),
        stderr: Some(
            resolved_path(
                p[11],
                array_job_id,
                array_task_id,
                id,
                node_list,
                user,
                name,
                working_dir,
            ),
        ),
        command: p[12],
    }
}

/// The job one line of `squeue` output describes: the trimmed line split at
/// the separator must give exactly 20 fields, or the line is skipped.
pub open spec fn parse_squeue_line(l: Seq<char>) -> Option<JobView> {
    let parts = split_str(trim(l), output_separator());
    if parts.len() == 20 {
        Some(job_from_fields(parts))
    } else {
        None
    }
}

/// The jobs of the lines `ls`, in order, skipping lines that describe none.
pub open spec fn parse_squeue_lines(ls: Seq<Seq<char>>) -> Seq<JobView>
    decreases ls.len(),
{
    if ls.len() == 0 {
        Seq::empty()
    } else {
        let r = parse_squeue_lines(ls.drop_last());
        match parse_squeue_line(ls.last()) {
            Some(j) => r.push(j),
            None => r,
        }
    }
}

/// The jobs that `squeue` output lists, line by line.
pub open spec fn parse_squeue_output(s: Seq<char>) -> Seq<JobView> {
    parse_squeue_lines(std_lines(s))
}

fn job_from_parts(cs: &Vec<char>, parts: &Vec<(usize, usize)>) -> (j: Job)
    requires
        parts@.len() == 20,
        forall|k: int| 0 <= k < parts@.len() ==> (#[trigger] parts@[k]).0 <= parts@[k].1 <= cs@.len(),
    ensures
        j@ == job_from_fields(ranges_view(cs@, parts@)),
{
    let ghost pv = ranges_view(cs@, parts@);
    let mut f: Vec<String> = Vec::new();
    let mut k: usize = 0;
    while k < 20
        invariant
            k <= 20,
            parts@.len() == 20,
            pv == ranges_view(cs@, parts@),
            forall|x: int| 0 <= x < parts@.len() ==> (#[trigger] parts@[x]).0 <= parts@[x].1 <= cs@.len(),
            f@.len() == k,
            forall|x: int| 0 <= x < k ==> (#[trigger] f@[x])@ == pv[x],
        decreases 20 - k,
    {
        let (a, b) = parts[k];
        f.push(string_from_chars(cs, a, b));
        k = k + 1;
    }
    let array_step = if same_text(f[16].as_str(), "N/A") {
        None
    } else {
        Some(f[16].clone())
    };
    let reason = if same_text(f[14].as_str(), "None") {
        None
    } else {
        Some(f[14].clone())
    };
    let stdout = resolve_path(
        f[10].as_str(),
        f[15].as_str(),
        f[16].as_str(),
        f[0].as_str(),
        f[17].as_str(),
        f[3].as_str(),
        f[1].as_str(),
        f[18].as_str(),
    );
    let stderr = resolve_path(
        f[11].as_str(),
        f[15].as_str(),
        f[16].as_str(),
        f[0].as_str(),
        f[17].as_str(),
        f[3].as_str(),
        f[1].as_str(),
        f[18].as_str(),
    );
    let j = Job {
        job_id: f[0].clone(),
        array_id: f[15].clone(),
        array_step,
        name: f[1].clone(),
        state: f[2].clone(),
        state_compact: f[13].clone(),
        reason,
        user: f[3].clone(),
        time: f[4].clone(),
        time_limit: f[5].clone(),
        start_time: f[6].clone(),
        tres: f[7].clone(),
        partition: f[8].clone(),
        nodelist: f[9].clone(),
        stdout,
        stderr,
        command: f[12].clone(),
    };
    proof {
        assert(j@ =~= job_from_fields(pv));
    }
    j
}

/// The jobs listed in `squeue` output (see `parse_squeue_output`).
pub fn parse_squeue_output_text(s: &str) -> (r: Vec<Job>)
    ensures
        jobs_view(r@) == parse_squeue_output(s@),
{
    let cs = chars_of(s);
    let sep = chars_of("###turm###");
    proof {
        reveal_strlit("###turm###");
    }
    let lines = line_ranges(&cs, 0, cs.len());
    let ghost ls = std_lines(s@);
    proof {
        assert(cs@.subrange(0, cs@.len() as int) =~= s@);
    }
    let mut r: Vec<Job> = Vec::new();
    let mut k: usize = 0;
    while k < lines.len()
        invariant
            k <= lines@.len(),
            sep@ == output_separator(),
            sep@.len() == 10,
            ranges_view(cs@, lines@) == ls,
            forall|x: int| 0 <= x < lines@.len() ==> 0 <= (#[trigger] lines@[x]).0 <= lines@[x].1 <= cs@.len(),
            jobs_view(r@) == parse_squeue_lines(ls.take(k as int)),
        decreases lines@.len() - k,
    {
        let (a, b) = lines[k];
        let (ta, tb) = trim_range(&cs, a, b);
        let parts = split_str_ranges(&cs, ta, tb, &sep);
        let ghost before = jobs_view(r@);
        proof {
            assert(ls[k as int] == cs@.subrange(a as int, b as int));
            assert(ls.take(k + 1).drop_last() =~= ls.take(k as int));
            assert(ls.take(k + 1).last() == ls[k as int]);
        }
        if parts.len() == 20 {
            let j = job_from_parts(&cs, &parts);
            r.push(j);
            proof {
                assert(jobs_view(r@) =~= before.push(j@));
            }
        }
        k = k + 1;
    }
    proof {
        assert(ls.take(k as int) =~= ls);
    }
    r
}

/// Keeps the job watcher running for as long as the application holds it.
pub struct JobWatcherHandle {}

} // verus!
