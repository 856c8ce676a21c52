//! How a processed line is rendered for output: quiet-mode filtering,
//! the dry-run marker and the file-name prefix.  Writing to the
//! terminal, and coloring, happen outside the library.

use vstd::prelude::*;

verus! {

/// The text printed for a line, or nothing when quiet mode drops it:
/// a dry-run marker for matched lines in a dry run, then the file-name
/// prefix when prefixing is on, then the line itself.
pub open spec fn spec_output_line(
    quiet: bool,
    prefix_files: bool,
    line: Seq<char>,
    filename: Option<Seq<char>>,
    matched: bool,
    dry_run: bool,
) -> Option<Seq<char>> {
    if quiet && !matched {
        None
    } else {
        Some(
            (if dry_run && matched {
                "[DRY-RUN] "@
            } else {
                Seq::empty()
            }) + (if prefix_files {
                match filename {
                    Some(f) => "["@ + f + "] "@,
                    None => Seq::empty(),
                }
            } else {
                Seq::empty()
            }) + line,
        )
    }
}

/// Render one line for output, executable form.
pub fn format_output_line(
    quiet: bool,
    prefix_files: bool,
    line: &str,
    filename: Option<&str>,
    matched: bool,
    dry_run: bool,
) -> (r: Option<String>)
    ensures
        r is Some <==> spec_output_line(
            quiet,
            prefix_files,
            line@,
            match filename {
                Some(f) => Some(f@),
                None => None::<Seq<char>>,
            },
            matched,
            dry_run,
        ) is Some,
        r matches Some(o) ==> Some(o@) == spec_output_line(
            quiet,
            prefix_files,
            line@,
            match filename {
                Some(f) => Some(f@),
                None => None::<Seq<char>>,
            },
            matched,
            dry_run,
        ),
{
    if quiet && !matched {
        return None;
    }
    let mut out = String::new();
    if dry_run && matched {
        out.append("[DRY-RUN] ");
    }
    if prefix_files {
        match filename {
            Some(f) => {
                out.append("[");
                out.append(f);
                out.append("] ");
            },
            None => {},
        }
    }
    out.append(line);
    proof {
        assert(Seq::<char>::empty() + line@ =~= line@);
    }
    Some(out)
}

} // verus!
