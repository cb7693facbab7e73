//! What the command-line scanner asks and prints: the answers it takes
//! for yes, folders given with `~`, and its progress and summary lines.
use vstd::prelude::*;
use crate::library::ScanProgress;
use crate::text::{nat_decimal, push_nat_decimal, push_str, to_owned_string, trim, trim_spec};

verus! {

/// An answer means yes when, trimmed, it is `y` or `Y`.
pub open spec fn is_yes_spec(answer: Seq<char>) -> bool {
    trim_spec(answer) == seq!['y'] || trim_spec(answer) == seq!['Y']
}

/// Whether an answer to a yes/no question means yes.
pub fn is_yes(answer: &str) -> (r: bool)
    ensures
        r == is_yes_spec(answer@),
{
    let t = trim(answer);
    let v = crate::text::chars_of(t.as_str());
    if v.len() == 1 {
        assert(t@ =~= seq![v@[0]]);
        v[0] == 'y' || v[0] == 'Y'
    } else {
        false
    }
}

/// A folder as typed, with a leading `~` replaced by the home folder when
/// that is known.
pub open spec fn expand_home_spec(path: Seq<char>, home: Option<Seq<char>>) -> Seq<char> {
    if path.len() > 0 && path[0] == '~' && home is Some {
        home->0 + path.skip(1)
    } else {
        path
    }
}

/// A folder as typed, with a leading `~` replaced by the home folder when
/// that is known.
pub fn expand_home(path: &str, home: Option<&str>) -> (r: String)
    ensures
        r@ == expand_home_spec(
            path@,
            match home {
                Some(h) => Some(h@),
                None => None,
            },
        ),
{
    let v = crate::text::chars_of(path);
    if v.len() > 0 && v[0] == '~' {
        match home {
            Some(h) => {
                let mut s = to_owned_string(h);
                let rest = crate::text::sub_chars(&v, 1, v.len());
                let rest_s = crate::text::string_from_chars(&rest);
                push_str(&mut s, rest_s.as_str());
                assert(rest@ =~= path@.skip(1));
                s
            },
            None => to_owned_string(path),
        }
    } else {
        to_owned_string(path)
    }
}

/// The line a progress report prints (without the line break the final
/// report starts with): the folder being scanned; the files found so far;
/// the files found, existing, new and, when there are any, updated; the
/// final report's first line.
pub open spec fn progress_text(p: ScanProgress) -> Seq<char> {
    match p {
        ScanProgress::StartingFolder { folder } => "Scanning: "@ + folder@,
        ScanProgress::FoundFile { total_found, skipped, .. } => "\r  Found "@ + nat_decimal(total_found as nat)
            + " files ("@ + nat_decimal(skipped as nat) + " existing)..."@,
        ScanProgress::ScannedFile { total_found, skipped, added, updated, .. } => "\r  "@ + nat_decimal(
            total_found as nat,
        ) + " files, "@ + nat_decimal(skipped as nat) + " existing, "@ + nat_decimal(added as nat) + " new"@ + (
        if updated > 0 {
            ", "@ + nat_decimal(updated as nat) + " updated"@
        } else {
            Seq::empty()
        }),
        ScanProgress::Complete { .. } => "Scan complete:"@,
    }
}

/// The line a progress report prints.
pub fn progress_line(p: &ScanProgress) -> (r: String)
    ensures
        r@ == progress_text(*p),
{
    match p {
        ScanProgress::StartingFolder { folder } => {
            let mut s = to_owned_string("Scanning: ");
            push_str(&mut s, folder.as_str());
            s
        },
        ScanProgress::FoundFile { total_found, skipped, .. } => {
            let mut s = to_owned_string("\r  Found ");
            push_nat_decimal(&mut s, *total_found as u64);
            push_str(&mut s, " files (");
            push_nat_decimal(&mut s, *skipped as u64);
            push_str(&mut s, " existing)...");
            s
        },
        ScanProgress::ScannedFile { total_found, skipped, added, updated, .. } => {
            let mut s = to_owned_string("\r  ");
            push_nat_decimal(&mut s, *total_found as u64);
            push_str(&mut s, " files, ");
            push_nat_decimal(&mut s, *skipped as u64);
            push_str(&mut s, " existing, ");
            push_nat_decimal(&mut s, *added as u64);
            push_str(&mut s, " new");
            if *updated > 0 {
                push_str(&mut s, ", ");
                push_nat_decimal(&mut s, *updated as u64);
                push_str(&mut s, " updated");
            }
            assert(s@ =~= progress_text(*p));
            s
        },
        ScanProgress::Complete { .. } => to_owned_string("Scan complete:"),
    }
}

/// The summary a finished scan prints, line by line: files found, up to
/// date, added, updated (when any were), and, when tracks are gone from
/// disk, how many.
pub open spec fn summary_lines_spec(found: usize, skipped: usize, added: usize, updated: usize, stale: nat) -> Seq<Seq<char>> {
    let head = seq![
        "  "@ + nat_decimal(found as nat) + " files found"@,
        "  "@ + nat_decimal(skipped as nat) + " already up to date"@,
        "  "@ + nat_decimal(added as nat) + " added"@,
    ];
    let head = if updated > 0 {
        head.push("  "@ + nat_decimal(updated as nat) + " updated"@)
    } else {
        head
    };
    if stale > 0 {
        head.push(nat_decimal(stale) + " tracks no longer found on disk:"@)
    } else {
        head
    }
}

/// `prefix`, a number, `suffix`.
fn numbered(prefix: &str, n: usize, suffix: &str) -> (r: String)
    ensures
        r@ == prefix@ + nat_decimal(n as nat) + suffix@,
{
    let mut s = to_owned_string(prefix);
    push_nat_decimal(&mut s, n as u64);
    push_str(&mut s, suffix);
    s
}

/// The summary a finished scan prints.
pub fn summary_lines(found: usize, skipped: usize, added: usize, updated: usize, stale: usize) -> (r: Vec<String>)
    ensures
        r@.map_values(|s: String| s@) == summary_lines_spec(found, skipped, added, updated, stale as nat),
{
    let mut r: Vec<String> = Vec::new();
    r.push(numbered("  ", found, " files found"));
    r.push(numbered("  ", skipped, " already up to date"));
    r.push(numbered("  ", added, " added"));
    if updated > 0 {
        r.push(numbered("  ", updated, " updated"));
    }
    if stale > 0 {
        r.push(numbered("", stale, " tracks no longer found on disk:"));
        proof {
            reveal_strlit("");
        }
    }
    assert(r@.map_values(|s: String| s@) =~= summary_lines_spec(found, skipped, added, updated, stale as nat));
    r
}

/// The line after removing gone tracks.
pub fn removed_line(count: usize) -> (r: String)
    ensures
        r@ == "Removed "@ + nat_decimal(count as nat) + " tracks."@,
{
    numbered("Removed ", count, " tracks.")
}

} // verus!
