//! Reading the answer of the summarising service: a summary, a list of
//! achievements and a list of tips, each under its own heading.

use crate::text::{
    after_prefix, chars_of, contains, contains_text, find_at, has_prefix, is_numeric, join_from,
    joined, lines, lines_of, numeric, position_from, rows, slice, starts_with, string_of,
    strip_prefix, texts_of, trim, trimmed,
};
use crate::clock::{date_label, date_text};
use crate::decimal::{decimal_of, digit_of, is_digit};
use crate::model::{CommitRecord, RepositoryRecord};
use vstd::prelude::*;

verus! {

/// The part of the answer that a line belongs to.
#[derive(Debug, Clone, Copy, PartialEq, Eq, Structural)]
pub enum Section {
    /// Before the first heading.
    Outside,
    /// Under the heading of the summary.
    Summary,
    /// Under the heading of the achievements.
    Achievements,
    /// Under the heading of the tips.
    Tips,
}

/// What has been read of an answer.
pub struct Reading {
    /// The part that the next line belongs to.
    pub section: Section,
    /// The lines of the summary.
    pub summary: Seq<Seq<char>>,
    /// The achievements.
    pub achievements: Seq<Seq<char>>,
    /// The tips.
    pub tips: Seq<Seq<char>>,
}

/// The second of the pieces into which `sep` cuts `s`: what stands between
/// the first `sep` and the next, or the end of `s` where there is no next.
pub open spec fn second_piece(s: Seq<char>, sep: Seq<char>) -> Seq<char> {
    let first = position_from(s, sep, 0);
    let start = first + sep.len();
    let next = position_from(s, sep, start);
    if first < 0 {
        Seq::empty()
    } else if next < 0 {
        s.skip(start)
    } else {
        s.subrange(start, next)
    }
}

/// The achievement that a line writes: what follows a hyphen and a space, or
/// an asterisk and a space, at its start.
pub open spec fn achievement_in(line: Seq<char>) -> Option<Seq<char>> {
    match after_prefix(line, "- "@) {
        Some(rest) => Some(trimmed(rest)),
        None => match after_prefix(line, "* "@) {
            Some(rest) => Some(trimmed(rest)),
            None => None,
        },
    }
}

/// Whether a character can begin a numbered line: it is a decimal digit, or
/// another character that counts as a number.
pub open spec fn begins_number(c: char) -> bool {
    is_digit(c) || numeric(c)
}

/// The tip that a line writes: the line begins with a number and holds a
/// full stop and a space, and the tip is what follows them up to the next
/// full stop and space.
pub open spec fn tip_in(line: Seq<char>) -> Option<Seq<char>> {
    if line.len() > 0 && begins_number(line[0]) && contains_text(line, ". "@) {
        Some(trimmed(second_piece(line, ". "@)))
    } else {
        None
    }
}

/// What has been read after one more line. A heading changes the part; any
/// other line adds to the part that it stands in.
pub open spec fn read_line(before: Reading, raw: Seq<char>) -> Reading {
    let line = trimmed(raw);
    if has_prefix(line, "## Summary"@) {
        Reading { section: Section::Summary, ..before }
    } else if has_prefix(line, "## Key Achievements"@) {
        Reading { section: Section::Achievements, ..before }
    } else if has_prefix(line, "## Presentation Tips"@) {
        Reading { section: Section::Tips, ..before }
    } else {
        match before.section {
            Section::Outside => before,
            Section::Summary => if line.len() > 0 && !has_prefix(line, "##"@) {
                Reading { summary: before.summary.push(line), ..before }
            } else {
                before
            },
            Section::Achievements => match achievement_in(line) {
                Some(text) => Reading { achievements: before.achievements.push(text), ..before },
                None => before,
            },
            Section::Tips => match tip_in(line) {
                Some(text) => Reading { tips: before.tips.push(text), ..before },
                None => before,
            },
        }
    }
}

/// What has been read after the given lines.
pub open spec fn read_lines(all: Seq<Seq<char>>) -> Reading
    decreases all.len(),
{
    if all.len() == 0 {
        Reading {
            section: Section::Outside,
            summary: Seq::empty(),
            achievements: Seq::empty(),
            tips: Seq::empty(),
        }
    } else {
        read_line(read_lines(all.drop_last()), all.last())
    }
}

/// The strings of the given texts.
pub fn strings_of(texts: &Vec<Vec<char>>) -> (r: Vec<String>)
    ensures
        texts_of(r@) == rows(texts@),
{
    let mut out: Vec<String> = Vec::new();
    let mut i: usize = 0;
    while i < texts.len()
        invariant
            i <= texts.len(),
            texts_of(out@) == rows(texts@).take(i as int),
        decreases texts.len() - i,
    {
        let ghost before = texts_of(out@);
        out.push(string_of(&texts[i]));
        proof {
            assert(texts_of(out@) =~= before.push(texts@[i as int]@));
            assert(rows(texts@).take(i + 1) =~= rows(texts@).take(i as int).push(
                texts@[i as int]@,
            ));
        }
        i += 1;
    }
    proof {
        assert(rows(texts@).take(i as int) =~= rows(texts@));
    }
    out
}

/// The second of the pieces into which `sep` cuts `s`.
pub fn second_of(s: &Vec<char>, sep: &Vec<char>) -> (r: Vec<char>)
    ensures
        r@ == second_piece(s@, sep@),
{
    match find_at(s, sep, 0) {
        None => Vec::new(),
        Some(first) => {
            assert(first + sep.len() <= s.len()) by {
                lemma_position_bound(s@, sep@, 0);
            }
            let start: usize = first + sep.len();
            match find_at(s, sep, start) {
                None => {
                    let r = slice(s, start, s.len());
                    proof {
                        assert(r@ =~= s@.skip(start as int));
                    }
                    r
                },
                Some(next) => {
                    proof {
                        lemma_position_bound(s@, sep@, start as int);
                    }
                    slice(s, start, next)
                },
            }
        },
    }
}

/// A position that is found lies at or after the start of the search, and
/// what was looked for fits at it.
pub proof fn lemma_position_bound(hay: Seq<char>, needle: Seq<char>, from: int)
    ensures
        position_from(hay, needle, from) >= 0 ==> from <= position_from(hay, needle, from)
            && position_from(hay, needle, from) + needle.len() <= hay.len(),
    decreases hay.len() - from,
{
    if 0 <= from && from + needle.len() <= hay.len() && !crate::text::occurs_at(
        hay,
        needle,
        from,
    ) && from < hay.len() {
        lemma_position_bound(hay, needle, from + 1);
    }
}

/// Reads the answer of the summarising service: the summary as one line, the
/// achievements, and the tips.
pub fn parse_response(response: &str) -> (r: (String, Vec<String>, Vec<String>))
    ensures
        r.0@ == joined(read_lines(lines_of(response@)).summary, " "@),
        texts_of(r.1@) == read_lines(lines_of(response@)).achievements,
        texts_of(r.2@) == read_lines(lines_of(response@)).tips,
{
    let all = lines(&chars_of(response));
    let mut section = Section::Outside;
    let mut summary: Vec<Vec<char>> = Vec::new();
    let mut achievements: Vec<Vec<char>> = Vec::new();
    let mut tips: Vec<Vec<char>> = Vec::new();
    let mut i: usize = 0;
    proof {
        assert(rows(all@).take(0) =~= Seq::<Seq<char>>::empty());
        assert(rows(summary@) =~= Seq::<Seq<char>>::empty());
        assert(rows(achievements@) =~= Seq::<Seq<char>>::empty());
        assert(rows(tips@) =~= Seq::<Seq<char>>::empty());
    }
    while i < all.len()
        invariant
            i <= all.len(),
            read_lines(rows(all@).take(i as int)) == (Reading {
                section,
                summary: rows(summary@),
                achievements: rows(achievements@),
                tips: rows(tips@),
            }),
        decreases all.len() - i,
    {
        let ghost before = read_lines(rows(all@).take(i as int));
        proof {
            assert(rows(all@).take(i + 1).drop_last() =~= rows(all@).take(i as int));
            assert(rows(all@).take(i + 1).last() == all@[i as int]@);
        }
        let line = trim(&all[i]);
        if starts_with(&line, &chars_of("## Summary")) {
            section = Section::Summary;
        } else if starts_with(&line, &chars_of("## Key Achievements")) {
            section = Section::Achievements;
        } else if starts_with(&line, &chars_of("## Presentation Tips")) {
            section = Section::Tips;
        } else {
            match section {
                Section::Outside => {},
                Section::Summary => {
                    if line.len() > 0 && !starts_with(&line, &chars_of("##")) {
                        let ghost old_rows = rows(summary@);
                        let ghost text = line@;
                        summary.push(line);
                        proof {
                            assert(rows(summary@) =~= old_rows.push(text));
                        }
                    }
                },
                Section::Achievements => {
                    let found = match strip_prefix(&line, &chars_of("- ")) {
                        Some(rest) => Some(trim(&rest)),
                        None => match strip_prefix(&line, &chars_of("* ")) {
                            Some(rest) => Some(trim(&rest)),
                            None => None,
                        },
                    };
                    assert(match found {
                        Some(text) => achievement_in(line@) == Some(text@),
                        None => achievement_in(line@) is None,
                    });
                    if let Some(text) = found {
                        let ghost old_rows = rows(achievements@);
                        let ghost letters = text@;
                        achievements.push(text);
                        proof {
                            assert(rows(achievements@) =~= old_rows.push(letters));
                        }
                    }
                },
                Section::Tips => {
                    let dot = chars_of(". ");
                    if line.len() > 0 && (digit_of(line[0]).is_some() || is_numeric(line[0]))
                        && contains(&line, &dot) {
                        let text = trim(&second_of(&line, &dot));
                        let ghost old_rows = rows(tips@);
                        let ghost letters = text@;
                        tips.push(text);
                        proof {
                            assert(rows(tips@) =~= old_rows.push(letters));
                        }
                    }
                },
            }
        }
        i += 1;
    }
    proof {
        assert(rows(all@).take(i as int) =~= rows(all@));
        assert(rows(summary@).skip(0) =~= rows(summary@));
    }
    let joined_summary = join_from(&summary, 0, &chars_of(" "));
    (string_of(&joined_summary), strings_of(&achievements), strings_of(&tips))
}

/// A whole number with its sign before it, a plus sign for zero too.
pub open spec fn signed_decimal(n: int) -> Seq<char> {
    if n >= 0 {
        "+"@ + decimal_of(n as nat)
    } else {
        "-"@ + decimal_of((-n) as nat)
    }
}

/// The calendar date of an instant, or the empty text where the calendar
/// cannot hold the instant.
pub open spec fn date_or_empty(timestamp: i64) -> Seq<char> {
    match date_text(timestamp) {
        Some(text) => text,
        None => Seq::empty(),
    }
}

/// References to the given numbers: each with `#` before it, a comma and a
/// space between each two.
pub open spec fn pr_refs(numbers: Seq<u32>) -> Seq<char>
    decreases numbers.len(),
{
    if numbers.len() == 0 {
        Seq::empty()
    } else if numbers.len() == 1 {
        "#"@ + decimal_of(numbers[0] as nat)
    } else {
        pr_refs(numbers.drop_last()) + ", "@ + "#"@ + decimal_of(numbers.last() as nat)
    }
}

/// The given paths with a comma and a space between each two.
pub open spec fn path_list(paths: Seq<String>) -> Seq<char>
    decreases paths.len(),
{
    if paths.len() == 0 {
        Seq::empty()
    } else if paths.len() == 1 {
        paths[0]@
    } else {
        path_list(paths.drop_last()) + ", "@ + paths.last()@
    }
}

/// The line of the references of a commit; nothing for a commit without any.
pub open spec fn refs_line(commit: CommitRecord) -> Seq<char> {
    if commit.pr_numbers@.len() == 0 {
        Seq::empty()
    } else {
        "   PRs: "@ + pr_refs(commit.pr_numbers@) + "\n"@
    }
}

/// The line of the files of a commit: the first five, and how many more
/// there are; nothing for a commit without files.
pub open spec fn files_line(commit: CommitRecord) -> Seq<char> {
    let files = commit.files_changed@;
    if files.len() == 0 {
        Seq::empty()
    } else if files.len() > 5 {
        "   Files: "@ + path_list(files.take(5)) + " (+"@ + decimal_of((files.len() - 5) as nat)
            + " more)\n"@
    } else {
        "   Files: "@ + path_list(files) + "\n"@
    }
}

/// What the prompt says of the commit with the given number.
pub open spec fn commit_entry(commit: CommitRecord, number: nat) -> Seq<char> {
    decimal_of(number) + ". "@ + commit.short_hash@ + " - "@ + commit.summary@ + "\n"@
        + refs_line(commit) + files_line(commit)
}

/// What the prompt says of the first `count` commits.
pub open spec fn commit_entries(commits: Seq<CommitRecord>, count: nat) -> Seq<char>
    decreases count,
{
    if count == 0 {
        Seq::empty()
    } else {
        commit_entries(commits, (count - 1) as nat) + commit_entry(commits[count - 1], count)
    }
}

/// The head of the prompt: the repository, its address, and the days from
/// the last commit of the list to the first.
pub open spec fn prompt_head(repo: RepositoryRecord) -> Seq<char> {
    let url = match repo.remote_url {
        Some(address) => "URL: "@ + address@ + "\n"@,
        None => Seq::empty(),
    };
    let span = if repo.commits@.len() > 0 {
        "Timespan: "@ + date_or_empty(repo.commits@.last().timestamp) + " to "@ + date_or_empty(
            repo.commits@[0].timestamp,
        ) + "\n"@
    } else {
        Seq::empty()
    };
    "You are helping a developer prepare for Demo Day presentation.\n\n"@ + "Repository: "@
        + repo.name@ + "\n"@ + url + span
}

/// The counters as the prompt writes them.
pub open spec fn prompt_statistics(repo: RepositoryRecord) -> Seq<char> {
    let stats = repo.stats;
    let prs = if stats.pr_count > 0 {
        "- Pull requests: "@ + decimal_of(stats.pr_count as nat) + "\n"@
    } else {
        Seq::empty()
    };
    "\nStatistics:\n"@ + "- Total commits: "@ + decimal_of(stats.total_commits as nat) + "\n"@
        + "- Files changed: "@ + decimal_of(stats.total_files_changed as nat) + "\n"@
        + "- Lines added: "@ + decimal_of(stats.total_insertions as nat) + "\n"@
        + "- Lines deleted: "@ + decimal_of(stats.total_deletions as nat) + "\n"@
        + "- Net lines: "@ + signed_decimal(stats.total_insertions - stats.total_deletions)
        + "\n"@ + prs
}

/// How many commits the prompt lists: no more than fifty.
pub open spec fn listed(commits: Seq<CommitRecord>) -> nat {
    if commits.len() > 50 {
        50
    } else {
        commits.len()
    }
}

/// The commits as the prompt writes them.
pub open spec fn prompt_commits(repo: RepositoryRecord) -> Seq<char> {
    let commits = repo.commits@;
    let more = if commits.len() > 50 {
        "\n(Showing first 50 of "@ + decimal_of(commits.len()) + " commits)\n"@
    } else {
        Seq::empty()
    };
    "\nCommits ("@ + decimal_of(commits.len()) + "):\n"@ + commit_entries(
        commits,
        listed(commits),
    ) + more
}

/// What the prompt asks for, and in which form.
pub open spec fn prompt_request() -> Seq<char> {
    "\nPlease provide:\n"@ + "1. A concise summary of the work done (2-3 paragraphs)\n"@
        + "2. Key achievements (3-5 bullet points)\n"@
        + "3. Tips for presenting this work in a screenshare demo (3-5 tips)\n\n"@
        + "Format your response EXACTLY as follows:\n\n"@ + "## Summary\n"@
        + "[Your 2-3 paragraph summary here]\n\n"@ + "## Key Achievements\n"@
        + "- [Achievement 1]\n"@ + "- [Achievement 2]\n"@ + "- [Achievement 3]\n\n"@
        + "## Presentation Tips\n"@ + "1. [Tip 1]\n"@ + "2. [Tip 2]\n"@ + "3. [Tip 3]\n"@
}

/// The prompt for a repository.
pub open spec fn prompt_of(repo: RepositoryRecord) -> Seq<char> {
    prompt_head(repo) + prompt_statistics(repo) + prompt_commits(repo) + prompt_request()
}

/// Appends a literal text.
fn put(out: &mut Vec<char>, text: &str)
    ensures
        final(out)@ == old(out)@ + text@,
{
    crate::text::append(out, &chars_of(text));
}

/// Appends a number.
fn put_number(out: &mut Vec<char>, n: u64)
    ensures
        final(out)@ == old(out)@ + decimal_of(n as nat),
{
    crate::decimal::push_decimal(out, n);
}

/// Appends the calendar date of an instant.
fn put_date(out: &mut Vec<char>, timestamp: i64)
    ensures
        final(out)@ == old(out)@ + date_or_empty(timestamp),
{
    match date_label(timestamp) {
        Some(text) => put(out, text.as_str()),
        None => {
            assert(out@ + Seq::<char>::empty() =~= out@);
        },
    }
}

/// Writes a whole number with its sign before it.
pub fn signed(n: i64) -> (r: Vec<char>)
    ensures
        r@ == signed_decimal(n as int),
{
    let mut out: Vec<char> = Vec::new();
    if n >= 0 {
        put(&mut out, "+");
        put_number(&mut out, n as u64);
    } else {
        put(&mut out, "-");
        let size: u64 = if n == i64::MIN {
            0x8000_0000_0000_0000u64
        } else {
            (-n) as u64
        };
        put_number(&mut out, size);
    }
    proof {
        assert(Seq::<char>::empty() + "+"@ =~= "+"@);
        assert(Seq::<char>::empty() + "-"@ =~= "-"@);
    }
    out
}

/// Writes references to the given numbers.
pub fn write_pr_refs(numbers: &Vec<u32>) -> (r: Vec<char>)
    ensures
        r@ == pr_refs(numbers@),
{
    let mut out: Vec<char> = Vec::new();
    let mut i: usize = 0;
    proof {
        assert(numbers@.take(0) =~= Seq::<u32>::empty());
    }
    while i < numbers.len()
        invariant
            i <= numbers.len(),
            out@ == pr_refs(numbers@.take(i as int)),
        decreases numbers.len() - i,
    {
        let ghost before = out@;
        proof {
            assert(numbers@.take(i + 1).drop_last() =~= numbers@.take(i as int));
            assert(numbers@.take(i + 1).last() == numbers@[i as int]);
        }
        if i > 0 {
            put(&mut out, ", ");
        }
        put(&mut out, "#");
        put_number(&mut out, numbers[i] as u64);
        proof {
            if i == 0 {
                assert(numbers@.take(1)[0] == numbers@[0]);
                assert(before =~= Seq::<char>::empty());
                assert(out@ =~= "#"@ + decimal_of(numbers@[0] as nat));
            }
        }
        i += 1;
    }
    proof {
        assert(numbers@.take(i as int) =~= numbers@);
    }
    out
}

/// Writes the first `count` of the given paths with a comma between each two.
pub fn write_path_list(paths: &Vec<String>, count: usize) -> (r: Vec<char>)
    requires
        count <= paths.len(),
    ensures
        r@ == path_list(paths@.take(count as int)),
{
    let mut out: Vec<char> = Vec::new();
    let mut i: usize = 0;
    proof {
        assert(paths@.take(0) =~= Seq::<String>::empty());
    }
    while i < count
        invariant
            i <= count <= paths.len(),
            out@ == path_list(paths@.take(i as int)),
        decreases count - i,
    {
        let ghost before = out@;
        proof {
            assert(paths@.take(i + 1).drop_last() =~= paths@.take(i as int));
            assert(paths@.take(i + 1).last() == paths@[i as int]);
        }
        if i > 0 {
            put(&mut out, ", ");
        }
        put(&mut out, paths[i].as_str());
        proof {
            if i == 0 {
                assert(paths@.take(1)[0] == paths@[0]);
                assert(before =~= Seq::<char>::empty());
                assert(out@ =~= paths@[0]@);
            }
        }
        i += 1;
    }
    out
}

/// Appends what the prompt says of one commit.
fn put_commit(out: &mut Vec<char>, commit: &CommitRecord, number: usize)
    ensures
        final(out)@ == old(out)@ + commit_entry(*commit, number as nat),
{
    let mut entry: Vec<char> = Vec::new();
    put_number(&mut entry, number as u64);
    put(&mut entry, ". ");
    put(&mut entry, commit.short_hash.as_str());
    put(&mut entry, " - ");
    put(&mut entry, commit.summary.as_str());
    put(&mut entry, "\n");
    proof {
        assert(Seq::<char>::empty() + decimal_of(number as nat) =~= decimal_of(number as nat));
    }
    let ghost first = entry@;
    if commit.pr_numbers.len() > 0 {
        put(&mut entry, "   PRs: ");
        crate::text::append(&mut entry, &write_pr_refs(&commit.pr_numbers));
        put(&mut entry, "\n");
    }
    proof {
        assert(entry@ =~= first + refs_line(*commit));
    }
    let ghost second = entry@;
    let files = &commit.files_changed;
    if files.len() > 5 {
        put(&mut entry, "   Files: ");
        crate::text::append(&mut entry, &write_path_list(files, 5));
        put(&mut entry, " (+");
        put_number(&mut entry, (files.len() - 5) as u64);
        put(&mut entry, " more)\n");
    } else if files.len() > 0 {
        put(&mut entry, "   Files: ");
        crate::text::append(&mut entry, &write_path_list(files, files.len()));
        put(&mut entry, "\n");
        proof {
            assert(files@.take(files@.len() as int) =~= files@);
        }
    }
    proof {
        assert(entry@ =~= second + files_line(*commit));
    }
    crate::text::append(out, &entry);
}

/// The prompt that asks the summarising service about a repository.
pub fn generate_summary_prompt(repo: &RepositoryRecord) -> (prompt: String)
    ensures
        prompt@ == prompt_of(*repo),
{
    let mut head: Vec<char> = Vec::new();
    put(&mut head, "You are helping a developer prepare for Demo Day presentation.\n\n");
    put(&mut head, "Repository: ");
    put(&mut head, repo.name.as_str());
    put(&mut head, "\n");
    proof {
        assert(Seq::<char>::empty()
            + "You are helping a developer prepare for Demo Day presentation.\n\n"@
            =~= "You are helping a developer prepare for Demo Day presentation.\n\n"@);
    }
    let ghost named = head@;
    if let Some(address) = &repo.remote_url {
        let mut line: Vec<char> = chars_of("URL: ");
        put(&mut line, address.as_str());
        put(&mut line, "\n");
        crate::text::append(&mut head, &line);
    } else {
        assert(head@ + Seq::<char>::empty() =~= head@);
    }
    let commits = &repo.commits;
    if commits.len() > 0 {
        let mut line: Vec<char> = chars_of("Timespan: ");
        put_date(&mut line, commits[commits.len() - 1].timestamp);
        put(&mut line, " to ");
        put_date(&mut line, commits[0].timestamp);
        put(&mut line, "\n");
        crate::text::append(&mut head, &line);
    } else {
        assert(head@ + Seq::<char>::empty() =~= head@);
    }
    assert(head@ == prompt_head(*repo));

    let mut numbers: Vec<char> = Vec::new();
    put(&mut numbers, "\nStatistics:\n");
    proof {
        assert(Seq::<char>::empty() + "\nStatistics:\n"@ =~= "\nStatistics:\n"@);
    }
    put(&mut numbers, "- Total commits: ");
    put_number(&mut numbers, repo.stats.total_commits as u64);
    put(&mut numbers, "\n");
    put(&mut numbers, "- Files changed: ");
    put_number(&mut numbers, repo.stats.total_files_changed as u64);
    put(&mut numbers, "\n");
    put(&mut numbers, "- Lines added: ");
    put_number(&mut numbers, repo.stats.total_insertions as u64);
    put(&mut numbers, "\n");
    put(&mut numbers, "- Lines deleted: ");
    put_number(&mut numbers, repo.stats.total_deletions as u64);
    put(&mut numbers, "\n");
    put(&mut numbers, "- Net lines: ");
    crate::text::append(&mut numbers, &signed(repo.stats.net_lines_changed()));
    put(&mut numbers, "\n");
    if repo.stats.pr_count > 0 {
        let mut line: Vec<char> = chars_of("- Pull requests: ");
        put_number(&mut line, repo.stats.pr_count as u64);
        put(&mut line, "\n");
        crate::text::append(&mut numbers, &line);
    } else {
        assert(numbers@ + Seq::<char>::empty() =~= numbers@);
    }
    assert(numbers@ == prompt_statistics(*repo));

    let mut list: Vec<char> = Vec::new();
    put(&mut list, "\nCommits (");
    proof {
        assert(Seq::<char>::empty() + "\nCommits ("@ =~= "\nCommits ("@);
    }
    put_number(&mut list, commits.len() as u64);
    put(&mut list, "):\n");
    let shown: usize = if commits.len() > 50 {
        50
    } else {
        commits.len()
    };
    let mut entries: Vec<char> = Vec::new();
    let mut i: usize = 0;
    while i < shown
        invariant
            i <= shown <= commits.len(),
            entries@ == commit_entries(commits@, i as nat),
        decreases shown - i,
    {
        put_commit(&mut entries, &commits[i], i + 1);
        i += 1;
    }
    crate::text::append(&mut list, &entries);
    if commits.len() > 50 {
        let mut line: Vec<char> = chars_of("\n(Showing first 50 of ");
        put_number(&mut line, commits.len() as u64);
        put(&mut line, " commits)\n");
        crate::text::append(&mut list, &line);
    } else {
        assert(list@ + Seq::<char>::empty() =~= list@);
    }
    assert(list@ == prompt_commits(*repo));

    let mut request: Vec<char> = Vec::new();
    put(&mut request, "\nPlease provide:\n");
    proof {
        assert(Seq::<char>::empty() + "\nPlease provide:\n"@ =~= "\nPlease provide:\n"@);
    }
    put(&mut request, "1. A concise summary of the work done (2-3 paragraphs)\n");
    put(&mut request, "2. Key achievements (3-5 bullet points)\n");
    put(&mut request, "3. Tips for presenting this work in a screenshare demo (3-5 tips)\n\n");
    put(&mut request, "Format your response EXACTLY as follows:\n\n");
    put(&mut request, "## Summary\n");
    put(&mut request, "[Your 2-3 paragraph summary here]\n\n");
    put(&mut request, "## Key Achievements\n");
    put(&mut request, "- [Achievement 1]\n");
    put(&mut request, "- [Achievement 2]\n");
    put(&mut request, "- [Achievement 3]\n\n");
    put(&mut request, "## Presentation Tips\n");
    put(&mut request, "1. [Tip 1]\n");
    put(&mut request, "2. [Tip 2]\n");
    put(&mut request, "3. [Tip 3]\n");
    assert(request@ == prompt_request());

    crate::text::append(&mut head, &numbers);
    crate::text::append(&mut head, &list);
    crate::text::append(&mut head, &request);
    string_of(&head)
}

} // verus!
