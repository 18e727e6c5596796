//! What the harness asks of git, and what it makes of the answers.

use crate::context::HARNESS_DIR;
use crate::profile::WorkspaceSpec;
use crate::text::{
    chars_of, join, joined, last_segment, last_segment_without, lemma_appended_line,
    lemma_ended_last_line, lemma_last_segment, lemma_without_slashes, lines, lines_of, same_text,
    texts, trim, trim_end_matches, trimmed, without_return, without_slashes,
};
use vstd::prelude::*;
use vstd::string::*;

verus! {

/// The directory that a workspace is cloned into.
pub open spec fn clone_dir(spec: WorkspaceSpec) -> Seq<char> {
    match spec.dir {
        Some(dir) => dir@,
        None => trim_end_matches(last_segment(without_slashes(spec.repo@)), ".git"@),
    }
}

/// The directory that a workspace is cloned into: the one that is asked for,
/// else the repository's name, which is the last segment of its URL without
/// `.git`. Slashes at the end of the URL do not count.
pub fn workspace_dir_name(spec: &WorkspaceSpec) -> (name: String)
    ensures
        name@ == clone_dir(*spec),
{
    match &spec.dir {
        Some(dir) => dir.clone(),
        None => {
            proof {
                reveal_strlit(".git");
            }
            last_segment_without(spec.repo.as_str(), ".git")
        },
    }
}

/// The arguments that clone a workspace into `target`.
pub open spec fn clone_arguments(spec: WorkspaceSpec, target: Seq<char>) -> Seq<Seq<char>> {
    let base = seq!["clone"@, spec.repo@];
    match spec.git_ref {
        Some(git_ref) => base + seq!["--branch"@, git_ref@, target],
        None => base + seq![target],
    }
}

/// The arguments that clone a workspace into `target`.
pub fn clone_args(spec: &WorkspaceSpec, target: &str) -> (args: Vec<String>)
    ensures
        texts(args@) == clone_arguments(*spec, target@),
{
    let mut args: Vec<String> = Vec::new();
    args.push("clone".to_owned());
    args.push(spec.repo.clone());
    if let Some(git_ref) = &spec.git_ref {
        args.push("--branch".to_owned());
        args.push(git_ref.clone());
    }
    args.push(target.to_owned());
    assert(texts(args@) =~= clone_arguments(*spec, target@));
    args
}

/// The arguments that ask for the commit that is checked out.
pub fn head_args() -> (args: Vec<String>)
    ensures
        texts(args@) == seq!["rev-parse"@, "HEAD"@],
{
    let mut args: Vec<String> = Vec::new();
    args.push("rev-parse".to_owned());
    args.push("HEAD".to_owned());
    assert(texts(args@) =~= seq!["rev-parse"@, "HEAD"@]);
    args
}

/// The arguments that ask for the changes since `base`.
pub fn diff_args(base: &str) -> (args: Vec<String>)
    ensures
        texts(args@) == seq!["diff"@, base@],
{
    let mut args: Vec<String> = Vec::new();
    args.push("diff".to_owned());
    args.push(base.to_owned());
    assert(texts(args@) =~= seq!["diff"@, base@]);
    args
}

/// The arguments that ask for the files that git does not track.
pub fn untracked_args() -> (args: Vec<String>)
    ensures
        texts(args@) == seq!["ls-files"@, "--others"@, "--exclude-standard"@],
{
    let mut args: Vec<String> = Vec::new();
    args.push("ls-files".to_owned());
    args.push("--others".to_owned());
    args.push("--exclude-standard".to_owned());
    assert(texts(args@) =~= seq!["ls-files"@, "--others"@, "--exclude-standard"@]);
    args
}

/// What to tell the user when git failed.
pub fn failure_text(args: &Vec<String>, stderr: &str) -> (out: String)
    ensures
        out@ == "git "@ + joined(texts(args@), " "@) + " failed: "@
            + trimmed(stderr@),
{
    let mut out = "git ".to_owned();
    out.append(join(args, " ").as_str());
    out.append(" failed: ");
    out.append(trim(stderr).as_str());
    out
}

/// The line that keeps harness state out of git's view of a workspace.
pub open spec fn exclude_entry() -> Seq<char> {
    HARNESS_DIR@ + "/"@
}

/// Whether one of the lines of an exclude file is the harness's own.
pub open spec fn excludes_harness(existing: Seq<char>) -> bool {
    exists|i: int|
        0 <= i < lines(existing).len() && trimmed(#[trigger] lines(existing)[i]) == exclude_entry()
}

/// What to append to an exclude file: a line of its own, so that a last line
/// that is not ended is ended first.
pub open spec fn exclude_addition(existing: Seq<char>) -> Seq<char> {
    (if existing.len() == 0 || existing.last() == '\n' {
        ""@
    } else {
        "\n"@
    }) + exclude_entry() + "\n"@
}

/// What to append to git's exclude file so that harness state never shows up
/// as untracked work; `None` if the file says so already.
pub fn exclude_line(existing: &str) -> (line: Option<String>)
    ensures
        line is None <==> excludes_harness(existing@),
        line matches Some(line) ==> line@ == exclude_addition(existing@),
{
    let mut entry = HARNESS_DIR.to_owned();
    entry.append("/");
    let listed = lines_of(existing);
    let ghost all = lines(existing@);
    let mut i: usize = 0;
    while i < listed.len()
        invariant
            i <= listed@.len(),
            all == lines(existing@),
            texts(listed@) == all,
            entry@ == exclude_entry(),
            forall|j: int| 0 <= j < i ==> trimmed(#[trigger] all[j]) != exclude_entry(),
        decreases listed@.len() - i,
    {
        assert(all[i as int] == listed@[i as int]@);
        if same_text(trim(listed[i].as_str()).as_str(), entry.as_str()) {
            return None;
        }
        i += 1;
    }
    assert(all.len() == listed@.len());
    let chars = chars_of(existing);
    let mut line = if chars.len() == 0 || chars[chars.len() - 1] == '\n' {
        "".to_owned()
    } else {
        "\n".to_owned()
    };
    line.append(entry.as_str());
    line.append("\n");
    Some(line)
}

/// The lines of an exclude file once its last line is ended.
pub open spec fn ended_lines(existing: Seq<char>) -> Seq<Seq<char>> {
    if existing.len() == 0 || existing.last() == '\n' {
        lines(existing)
    } else {
        lines(existing).drop_last().push(without_return(lines(existing).last()))
    }
}

/// Once the line has been appended to an exclude file, whatever the file held,
/// it is found there, behind the lines that the file had.
pub proof fn lemma_exclude_once(existing: Seq<char>)
    ensures
        excludes_harness(existing + exclude_addition(existing)),
        lines(existing + exclude_addition(existing)) == ended_lines(existing).push(exclude_entry()),
{
    reveal_strlit(".goose-harness");
    reveal_strlit("/");
    reveal_strlit("\n");
    reveal_strlit("");
    let entry = exclude_entry();
    let all = existing + exclude_addition(existing);
    let ended = if existing.len() == 0 || existing.last() == '\n' {
        existing
    } else {
        existing.push('\n')
    };
    assert(all =~= ended + entry.push('\n'));
    assert(!entry.contains('\n'));
    assert(entry.last() == '/');
    lemma_appended_line(ended, entry);
    if ended != existing {
        lemma_ended_last_line(existing);
    }
    assert(trimmed(entry) == entry);
    let at = lines(all).len() - 1;
    assert(lines(all)[at] == entry);
}

/// A clone is named after its repository, whether or not the URL ends with
/// `.git` or with slashes.
pub proof fn lemma_clone_named_after_repository(
    spec: WorkspaceSpec,
    base: Seq<char>,
    name: Seq<char>,
    ending: Seq<char>,
    slashes: Seq<char>,
)
    requires
        spec.dir is None,
        spec.repo@ == base + "/"@ + name + ending + slashes,
        name.len() > 0,
        !name.contains('/'),
        !".git"@.is_suffix_of(name),
        ending == ""@ || ending == ".git"@,
        forall|i: int| 0 <= i < slashes.len() ==> #[trigger] slashes[i] == '/',
    ensures
        clone_dir(spec) == name,
{
    reveal_strlit("/");
    reveal_strlit("");
    reveal_strlit(".git");
    let segment = name + ending;
    let start = base + "/"@;
    let url = start + segment;
    assert(spec.repo@ =~= url + slashes);
    assert forall|i: int| start.len() <= i < url.len() implies url[i] != '/' by {
        if i < start.len() + name.len() {
            assert(url[i] == name[i - start.len()]);
            assert(name.contains(name[i - start.len()]));
        } else {
            assert(url[i] == ending[i - start.len() - name.len()]);
        }
    }
    assert(url.last() == url[url.len() - 1]);
    lemma_without_slashes(url, slashes);
    lemma_last_segment(url, start.len() as int);
    assert(url.skip(start.len() as int) =~= segment);
    assert(trim_end_matches(name, ".git"@) == name);
    if ending == ""@ {
        assert(segment =~= name);
    } else {
        assert(segment.subrange(segment.len() - 4, segment.len() as int) =~= ".git"@);
        assert(segment.take(segment.len() - 4) =~= name);
        assert(trim_end_matches(segment, ".git"@) == trim_end_matches(name, ".git"@));
    }
}

/// A clone goes where it is asked to, and else it is named after the last part
/// of its URL without `.git`.
pub proof fn lemma_clone_name_answer(
    spec: WorkspaceSpec,
    name: String,
    repo: &str,
    ending: &str,
    last_part: String,
)
    requires
        call_ensures(workspace_dir_name, (&spec,), name),
        repo@ == spec.repo@,
        ending@ == ".git"@,
        call_ensures(last_segment_without, (repo, ending), last_part),
    ensures
        spec.dir matches Some(dir) ==> name@ == dir@,
        spec.dir is None ==> name@ == last_part@,
{
}

/// What git is asked: to clone the repository into the target, at the ref if
/// one is given; for the commit that is checked out; for the changes since the
/// base; for the files that it does not track.
pub proof fn lemma_git_arguments(
    spec: WorkspaceSpec,
    target: &str,
    clone: Vec<String>,
    head: Vec<String>,
    base: &str,
    diff: Vec<String>,
    untracked: Vec<String>,
)
    requires
        call_ensures(clone_args, (&spec, target), clone),
        call_ensures(head_args, (), head),
        call_ensures(diff_args, (base,), diff),
        call_ensures(untracked_args, (), untracked),
    ensures
        clone@.len() >= 3 && clone@[0]@ == "clone"@ && clone@[1]@ == spec.repo@,
        clone@.last()@ == target@,
        spec.git_ref is None ==> clone@.len() == 3,
        spec.git_ref matches Some(git_ref) ==> clone@.len() == 5 && clone@[2]@ == "--branch"@
            && clone@[3]@ == git_ref@,
        head@.len() == 2 && head@[0]@ == "rev-parse"@ && head@[1]@ == "HEAD"@,
        diff@.len() == 2 && diff@[0]@ == "diff"@ && diff@[1]@ == base@,
        untracked@.len() == 3 && untracked@[0]@ == "ls-files"@ && untracked@[1]@ == "--others"@
            && untracked@[2]@ == "--exclude-standard"@,
{
    assert(texts(clone@).len() == clone@.len());
    assert(texts(clone@)[0] == clone@[0]@);
    assert(texts(clone@)[1] == clone@[1]@);
    assert(texts(clone@)[clone@.len() - 1] == clone@.last()@);
    if spec.git_ref is Some {
        assert(texts(clone@)[2] == clone@[2]@);
        assert(texts(clone@)[3] == clone@[3]@);
    }
    assert(texts(head@).len() == head@.len());
    assert(texts(head@)[0] == head@[0]@);
    assert(texts(head@)[1] == head@[1]@);
    assert(texts(diff@).len() == diff@.len());
    assert(texts(diff@)[0] == diff@[0]@);
    assert(texts(diff@)[1] == diff@[1]@);
    assert(texts(untracked@).len() == untracked@.len());
    assert(texts(untracked@)[0] == untracked@[0]@);
    assert(texts(untracked@)[1] == untracked@[1]@);
    assert(texts(untracked@)[2] == untracked@[2]@);
}

/// A failure names the command, its arguments with a space between any two, and
/// what git complained of without the white space around it.
pub proof fn lemma_failure_answer(
    args: Vec<String>,
    stderr: &str,
    out: String,
    space: &str,
    command: String,
    complaint: String,
)
    requires
        call_ensures(failure_text, (&args, stderr), out),
        space@ == " "@,
        call_ensures(join, (&args, space), command),
        call_ensures(trim, (stderr,), complaint),
    ensures
        out@ == "git "@ + command@ + " failed: "@ + complaint@,
{
}

/// Something is appended exactly when no line of the file excludes the harness
/// directory, and with it appended the file excludes it, has the lines that it
/// had, and has one more.
pub proof fn lemma_exclude_answer(
    existing: &str,
    line: Option<String>,
    listed: Vec<String>,
    content: &str,
    again: Option<String>,
    listed_again: Vec<String>,
    i: int,
)
    requires
        call_ensures(exclude_line, (existing,), line),
        call_ensures(lines_of, (existing,), listed),
        line is Some ==> content@ == existing@ + line->0@,
        line is None ==> content@ == existing@,
        call_ensures(exclude_line, (content,), again),
        call_ensures(lines_of, (content,), listed_again),
    ensures
        again is None,
        line is None <==> exists|k: int|
            0 <= k < listed@.len() && trimmed((#[trigger] listed@[k])@) == ".goose-harness/"@,
        line is Some ==> {
            &&& listed_again@.len() == listed@.len() + 1
            &&& listed_again@.last()@ == ".goose-harness/"@
            &&& 0 <= i < listed@.len() ==> listed_again@[i]@ == listed@[i]@ || listed_again@[i]@
                == without_return(listed@[i]@)
            &&& 0 <= i < listed@.len() - 1 ==> listed_again@[i]@ == listed@[i]@
            &&& line->0@.last() == '\n'
        },
{
    reveal_strlit(".goose-harness");
    reveal_strlit("/");
    reveal_strlit(".goose-harness/");
    reveal_strlit("\n");
    assert(exclude_entry() =~= ".goose-harness/"@);
    let all = lines(existing@);
    assert(texts(listed@).len() == listed@.len());
    assert forall|k: int| 0 <= k < listed@.len() implies #[trigger] listed@[k]@ == all[k] by {
        assert(texts(listed@)[k] == listed@[k]@);
    }
    if excludes_harness(existing@) {
        let k = choose|k: int|
            0 <= k < all.len() && trimmed(#[trigger] all[k]) == exclude_entry();
        assert(trimmed(listed@[k]@) == ".goose-harness/"@);
    }
    if exists|k: int|
        0 <= k < listed@.len() && trimmed((#[trigger] listed@[k])@) == ".goose-harness/"@ {
        let k = choose|k: int|
            0 <= k < listed@.len() && trimmed((#[trigger] listed@[k])@) == ".goose-harness/"@;
        assert(trimmed(all[k]) == exclude_entry());
        assert(excludes_harness(existing@));
    }
    if line is Some {
        lemma_exclude_once(existing@);
        assert(texts(listed_again@).len() == listed_again@.len());
        let new = lines(content@);
        assert(texts(listed_again@)[listed_again@.len() - 1] == listed_again@.last()@);
        if existing@.len() > 0 && existing@.last() != '\n' {
            lemma_ended_last_line(existing@);
        }
        if 0 <= i < listed@.len() {
            assert(texts(listed_again@)[i] == listed_again@[i]@);
            assert(new[i] == ended_lines(existing@)[i]);
        }
    }
}

} // verus!
