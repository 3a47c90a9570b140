//! The summary of a repository and how it is written as markdown.

use crate::clock::{now_seconds, time_label, time_text};
use crate::decimal::{decimal_of, push_decimal};
use crate::text::{append, chars_of, string_of};
use vstd::prelude::*;

verus! {

/// What the summarising service said of a repository.
#[derive(Debug, Clone)]
pub struct Summary {
    /// Name of the repository.
    pub repository: String,
    /// The summary of the work.
    pub work_summary: String,
    /// The achievements.
    pub key_achievements: Vec<String>,
    /// Tips for presenting the work.
    pub presentation_tips: Vec<String>,
    /// When the summary was made.
    pub generated_at: i64,
}

/// The first `count` items as a list with hyphens.
pub open spec fn bullet_list(items: Seq<String>, count: nat) -> Seq<char>
    decreases count,
{
    if count == 0 {
        Seq::empty()
    } else {
        bullet_list(items, (count - 1) as nat) + "- "@ + items[count - 1]@ + "\n"@
    }
}

/// The first `count` items as a list with numbers, from one.
pub open spec fn numbered_list(items: Seq<String>, count: nat) -> Seq<char>
    decreases count,
{
    if count == 0 {
        Seq::empty()
    } else {
        numbered_list(items, (count - 1) as nat) + decimal_of(count) + ". "@ + items[count - 1]@
            + "\n"@
    }
}

/// The date and time of an instant, or the empty text where the calendar
/// cannot hold the instant.
pub open spec fn time_or_empty(seconds: i64) -> Seq<char> {
    match time_text(seconds) {
        Some(text) => text,
        None => Seq::empty(),
    }
}

impl Summary {
    /// The part of the markdown that holds the achievements; nothing where
    /// there are none.
    pub open spec fn achievements_part(self) -> Seq<char> {
        if self.key_achievements@.len() == 0 {
            Seq::empty()
        } else {
            "## Key Achievements\n\n"@ + bullet_list(
                self.key_achievements@,
                self.key_achievements@.len(),
            ) + "\n"@
        }
    }

    /// The part of the markdown that holds the tips; nothing where there are none.
    pub open spec fn tips_part(self) -> Seq<char> {
        if self.presentation_tips@.len() == 0 {
            Seq::empty()
        } else {
            "## Presentation Tips\n\n"@ + numbered_list(
                self.presentation_tips@,
                self.presentation_tips@.len(),
            ) + "\n"@
        }
    }

    /// The summary as markdown.
    pub open spec fn markdown(self) -> Seq<char> {
        "# "@ + self.repository@ + "\n\n"@ + "## Summary\n\n"@ + self.work_summary@ + "\n\n"@
            + self.achievements_part() + self.tips_part() + "*Generated at: "@ + time_or_empty(
            self.generated_at,
        ) + "*\n"@
    }

    /// A summary made at the given instant.
    pub fn made_at(
        repository: String,
        work_summary: String,
        key_achievements: Vec<String>,
        presentation_tips: Vec<String>,
        generated_at: i64,
    ) -> (summary: Summary)
        ensures
            summary.repository == repository,
            summary.work_summary == work_summary,
            summary.key_achievements == key_achievements,
            summary.presentation_tips == presentation_tips,
            summary.generated_at == generated_at,
    {
        Summary { repository, work_summary, key_achievements, presentation_tips, generated_at }
    }

    /// A summary made now.
    pub fn new(
        repository: String,
        work_summary: String,
        key_achievements: Vec<String>,
        presentation_tips: Vec<String>,
    ) -> (summary: Summary)
        ensures
            summary.repository == repository,
            summary.work_summary == work_summary,
            summary.key_achievements == key_achievements,
            summary.presentation_tips == presentation_tips,
    {
        Self::made_at(repository, work_summary, key_achievements, presentation_tips, now_seconds())
    }

    /// Writes the summary as markdown.
    pub fn to_markdown(&self) -> (text: String)
        ensures
            text@ == self.markdown(),
    {
        let mut out: Vec<char> = chars_of("# ");
        append(&mut out, &chars_of(self.repository.as_str()));
        append(&mut out, &chars_of("\n\n"));
        append(&mut out, &chars_of("## Summary\n\n"));
        append(&mut out, &chars_of(self.work_summary.as_str()));
        append(&mut out, &chars_of("\n\n"));
        if self.key_achievements.len() > 0 {
            let mut part: Vec<char> = chars_of("## Key Achievements\n\n");
            let mut list: Vec<char> = Vec::new();
            let mut i: usize = 0;
            while i < self.key_achievements.len()
                invariant
                    i <= self.key_achievements.len(),
                    list@ == bullet_list(self.key_achievements@, i as nat),
                decreases self.key_achievements.len() - i,
            {
                let ghost before = list@;
                let mut line: Vec<char> = chars_of("- ");
                append(&mut line, &chars_of(self.key_achievements[i].as_str()));
                append(&mut line, &chars_of("\n"));
                append(&mut list, &line);
                proof {
                    assert(list@ =~= before + "- "@ + self.key_achievements@[i as int]@ + "\n"@);
                }
                i += 1;
            }
            append(&mut part, &list);
            append(&mut part, &chars_of("\n"));
            append(&mut out, &part);
        } else {
            assert(out@ + Seq::<char>::empty() =~= out@);
        }
        if self.presentation_tips.len() > 0 {
            let mut part: Vec<char> = chars_of("## Presentation Tips\n\n");
            let mut list: Vec<char> = Vec::new();
            let mut i: usize = 0;
            while i < self.presentation_tips.len()
                invariant
                    i <= self.presentation_tips.len(),
                    list@ == numbered_list(self.presentation_tips@, i as nat),
                decreases self.presentation_tips.len() - i,
            {
                let ghost before = list@;
                let mut line: Vec<char> = Vec::new();
                push_decimal(&mut line, (i + 1) as u64);
                append(&mut line, &chars_of(". "));
                append(&mut line, &chars_of(self.presentation_tips[i].as_str()));
                append(&mut line, &chars_of("\n"));
                append(&mut list, &line);
                proof {
                    assert(list@ =~= before + decimal_of((i + 1) as nat) + ". "@
                        + self.presentation_tips@[i as int]@ + "\n"@);
                }
                i += 1;
            }
            append(&mut part, &list);
            append(&mut part, &chars_of("\n"));
            append(&mut out, &part);
        } else {
            assert(out@ + Seq::<char>::empty() =~= out@);
        }
        append(&mut out, &chars_of("*Generated at: "));
        match time_label(self.generated_at) {
            Some(text) => append(&mut out, &chars_of(text.as_str())),
            None => {
                assert(out@ + Seq::<char>::empty() =~= out@);
            },
        }
        append(&mut out, &chars_of("*\n"));
        string_of(&out)
    }
}

} // verus!
