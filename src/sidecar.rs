//! What is sent to the storage process and what is kept of its output: the
//! argument list of each command, and the reading of output lines, where a
//! `/*` ends the part worth keeping.
use vstd::prelude::*;
use vstd::string::{StrSliceExecFns, StringExecFns};

verus! {

/// A comment opens at `i`: `s[i]` is `/` and `s[i + 1]` is `*`.
pub open spec fn opens_comment_at(s: Seq<char>, i: int) -> bool {
    0 <= i && i + 1 < s.len() && s[i] == '/' && s[i + 1] == '*'
}

/// The first comment of `s` opens at `i`.
pub open spec fn first_comment_at(s: Seq<char>, i: int) -> bool {
    &&& opens_comment_at(s, i)
    &&& forall|j: int| 0 <= j < i ==> !opens_comment_at(s, j)
}

/// Whether `s` holds `/*`, and `s` up to its first `/*` (all of `s` where it
/// holds none).
pub open spec fn strip_comment(s: Seq<char>) -> (bool, Seq<char>) {
    if exists|i: int| first_comment_at(s, i) {
        (true, s.subrange(0, choose|i: int| first_comment_at(s, i)))
    } else {
        (false, s)
    }
}

/// A string has at most one first comment.
pub proof fn lemma_first_comment_unique(s: Seq<char>, i: int, j: int)
    requires
        first_comment_at(s, i),
        first_comment_at(s, j),
    ensures
        i == j,
{
    if i < j {
        assert(!opens_comment_at(s, i));
    } else if j < i {
        assert(!opens_comment_at(s, j));
    }
}

/// The views of a list of strings.
pub open spec fn texts(v: Seq<String>) -> Seq<Seq<char>> {
    v.map_values(|s: String| s@)
}

/// Reports whether `string` holds `/*`, and returns it cut before its first
/// `/*`, or whole where it holds none.
pub fn check_and_remove_comment(string: &str) -> (r: (bool, String))
    ensures
        r.0 == strip_comment(string@).0,
        r.1@ == strip_comment(string@).1,
        r.0 <==> exists|i: int| opens_comment_at(string@, i),
{
    let n = string.unicode_len();
    let mut i: usize = 0;
    while n > 0 && i < n - 1
        invariant
            n == string@.len(),
            i <= n,
            forall|j: int| 0 <= j < i ==> !opens_comment_at(string@, j),
        decreases n - i,
    {
        if string.get_char(i) == '/' && string.get_char(i + 1) == '*' {
            assert(first_comment_at(string@, i as int));
            proof {
                let c = choose|c: int| first_comment_at(string@, c);
                lemma_first_comment_unique(string@, c, i as int);
            }
            let modified_string = String::from_str(string.substring_char(0, i));
            return (true, modified_string);
        }
        i = i + 1;
    }
    assert forall|j: int| !opens_comment_at(string@, j) by {
        if opens_comment_at(string@, j) {
            assert(j < i);
        }
    }
    (false, String::from_str(string))
}

/// Takes one line of the storage process's output while mounting: appends
/// it, cut before any `/*`, and a newline to `stdout`. Returns whether the
/// line held `/*`, which ends the reading.
pub fn append_output_line(stdout: &mut String, line: &str) -> (done: bool)
    ensures
        done == strip_comment(line@).0,
        final(stdout)@ == old(stdout)@ + strip_comment(line@).1 + seq!['\n'],
{
    let (comment, modified_line) = check_and_remove_comment(line);
    stdout.append(modified_line.as_str());
    stdout.append("\n");
    proof {
        reveal_strlit("\n");
    }
    comment
}

/// Appends `s` to the argument list.
fn push_arg(args: &mut Vec<String>, s: &str)
    ensures
        texts(final(args)@) == texts(old(args)@).push(s@),
{
    args.push(String::from_str(s));
    assert(texts(args@) =~= texts(old(args)@).push(s@));
}

/// `mount -p <path> -k <key> -o json`
pub fn mount_args(path: &str, key: &str) -> (r: Vec<String>)
    ensures
        texts(r@) == seq!["mount"@, "-p"@, path@, "-k"@, key@, "-o"@, "json"@],
{
    let mut r: Vec<String> = Vec::new();
    push_arg(&mut r, "mount");
    push_arg(&mut r, "-p");
    push_arg(&mut r, path);
    push_arg(&mut r, "-k");
    push_arg(&mut r, key);
    push_arg(&mut r, "-o");
    push_arg(&mut r, "json");
    assert(texts(r@) =~= seq!["mount"@, "-p"@, path@, "-k"@, key@, "-o"@, "json"@]);
    r
}

/// `share -j <path> -p <repo_path> -r <recipient> -k <key> -o json`: `-j`
/// joins the repository first where needed.
pub fn share_args(repo_path: &str, recipient: &str, path: &str, key: &str) -> (r: Vec<String>)
    ensures
        texts(r@) == seq![
            "share"@,
            "-j"@,
            path@,
            "-p"@,
            repo_path@,
            "-r"@,
            recipient@,
            "-k"@,
            key@,
            "-o"@,
            "json"@,
        ],
{
    let mut r: Vec<String> = Vec::new();
    push_arg(&mut r, "share");
    push_arg(&mut r, "-j");
    push_arg(&mut r, path);
    push_arg(&mut r, "-p");
    push_arg(&mut r, repo_path);
    push_arg(&mut r, "-r");
    push_arg(&mut r, recipient);
    push_arg(&mut r, "-k");
    push_arg(&mut r, key);
    push_arg(&mut r, "-o");
    push_arg(&mut r, "json");
    assert(texts(r@) =~= seq![
        "share"@,
        "-j"@,
        path@,
        "-p"@,
        repo_path@,
        "-r"@,
        recipient@,
        "-k"@,
        key@,
        "-o"@,
        "json"@,
    ]);
    r
}

/// `unshare <path> -p <repo_path> -r <recipient> -o json`
pub fn unshare_args(repo_path: &str, recipient: &str, path: &str) -> (r: Vec<String>)
    ensures
        texts(r@) == seq!["unshare"@, path@, "-p"@, repo_path@, "-r"@, recipient@, "-o"@, "json"@],
{
    let mut r: Vec<String> = Vec::new();
    push_arg(&mut r, "unshare");
    push_arg(&mut r, path);
    push_arg(&mut r, "-p");
    push_arg(&mut r, repo_path);
    push_arg(&mut r, "-r");
    push_arg(&mut r, recipient);
    push_arg(&mut r, "-o");
    push_arg(&mut r, "json");
    assert(texts(r@) =~= seq!["unshare"@, path@, "-p"@, repo_path@, "-r"@, recipient@, "-o"@, "json"@]);
    r
}

/// `init -p <path> -k <key> -o json`
pub fn init_args(path: &str, key: &str) -> (r: Vec<String>)
    ensures
        texts(r@) == seq!["init"@, "-p"@, path@, "-k"@, key@, "-o"@, "json"@],
{
    let mut r: Vec<String> = Vec::new();
    push_arg(&mut r, "init");
    push_arg(&mut r, "-p");
    push_arg(&mut r, path);
    push_arg(&mut r, "-k");
    push_arg(&mut r, key);
    push_arg(&mut r, "-o");
    push_arg(&mut r, "json");
    assert(texts(r@) =~= seq!["init"@, "-p"@, path@, "-k"@, key@, "-o"@, "json"@]);
    r
}

/// `status -p <path> -k <key> -o json`
pub fn status_args(path: &str, key: &str) -> (r: Vec<String>)
    ensures
        texts(r@) == seq!["status"@, "-p"@, path@, "-k"@, key@, "-o"@, "json"@],
{
    let mut r: Vec<String> = Vec::new();
    push_arg(&mut r, "status");
    push_arg(&mut r, "-p");
    push_arg(&mut r, path);
    push_arg(&mut r, "-k");
    push_arg(&mut r, key);
    push_arg(&mut r, "-o");
    push_arg(&mut r, "json");
    assert(texts(r@) =~= seq!["status"@, "-p"@, path@, "-k"@, key@, "-o"@, "json"@]);
    r
}

/// `list-access <path> -p <repo_path> -o json`
pub fn list_access_args(repo_path: &str, path: &str) -> (r: Vec<String>)
    ensures
        texts(r@) == seq!["list-access"@, path@, "-p"@, repo_path@, "-o"@, "json"@],
{
    let mut r: Vec<String> = Vec::new();
    push_arg(&mut r, "list-access");
    push_arg(&mut r, path);
    push_arg(&mut r, "-p");
    push_arg(&mut r, repo_path);
    push_arg(&mut r, "-o");
    push_arg(&mut r, "json");
    assert(texts(r@) =~= seq!["list-access"@, path@, "-p"@, repo_path@, "-o"@, "json"@]);
    r
}

} // verus!
