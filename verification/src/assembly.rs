//! Decisions of a ROM build that do not touch the disk: what the assembler
//! check reports, which emulator runs the ROM.
use vstd::prelude::*;

verus! {

/// Whether the assembler and the linker were found, and the warnings for
/// those that were not.
#[derive(Debug, Clone, Default)]
pub struct AssemblerStatus {
    pub ca65_found: bool,
    pub ld65_found: bool,
    pub warnings: Vec<String>,
}

/// The warning for a missing assembler.
pub open spec fn missing_assembler_warning(path: Seq<char>) -> Seq<char> {
    "assembler '"@ + path + "' was not found on PATH; skipping object build"@
}

/// The warning for a missing linker.
pub open spec fn missing_linker_warning(path: Seq<char>) -> Seq<char> {
    "linker '"@ + path + "' was not found on PATH; skipping ROM link"@
}

/// The warnings of an assembler check, the assembler's first.
pub open spec fn assembler_warnings(
    ca65_path: Seq<char>,
    ld65_path: Seq<char>,
    ca65_found: bool,
    ld65_found: bool,
) -> Seq<Seq<char>> {
    (if ca65_found { seq![] } else { seq![missing_assembler_warning(ca65_path)] }) + (if ld65_found {
        seq![]
    } else {
        seq![missing_linker_warning(ld65_path)]
    })
}

/// The text `head`, then `middle`, then `tail`.
fn joined(head: &str, middle: &str, tail: &str) -> (s: String)
    ensures
        s@ == head@ + middle@ + tail@,
{
    let mut s = String::new();
    s.append(head);
    s.append(middle);
    s.append(tail);
    assert(s@ =~= head@ + middle@ + tail@);
    s
}

impl AssemblerStatus {
    /// The report of an assembler check, given whether each tool was
    /// found.
    pub fn from_check(ca65_path: &str, ld65_path: &str, ca65_found: bool, ld65_found: bool) -> (s: Self)
        ensures
            s.ca65_found == ca65_found,
            s.ld65_found == ld65_found,
            s.warnings@.map_values(|w: String| w@) == assembler_warnings(
                ca65_path@,
                ld65_path@,
                ca65_found,
                ld65_found,
            ),
    {
        let mut warnings: Vec<String> = Vec::new();
        if !ca65_found {
            warnings.push(joined("assembler '", ca65_path, "' was not found on PATH; skipping object build"));
        }
        if !ld65_found {
            warnings.push(joined("linker '", ld65_path, "' was not found on PATH; skipping ROM link"));
        }
        assert(warnings@.map_values(|w: String| w@) =~= assembler_warnings(
            ca65_path@,
            ld65_path@,
            ca65_found,
            ld65_found,
        ));
        AssemblerStatus { ca65_found, ld65_found, warnings }
    }

    /// Whether both tools were found, so that a ROM can be assembled.
    pub fn can_assemble(&self) -> (r: bool)
        ensures
            r == (self.ca65_found && self.ld65_found),
    {
        self.ca65_found && self.ld65_found
    }
}

/// The emulator that runs a built ROM: the one asked for, else the
/// project's preferred one, else `ares`.
pub open spec fn spec_emulator(requested: Option<Seq<char>>, preferred: Option<Seq<char>>) -> Seq<char> {
    match requested {
        Some(e) => e,
        None => match preferred {
            Some(p) => p,
            None => "ares"@,
        },
    }
}

/// The emulator that runs a built ROM.
pub fn choose_emulator(requested: Option<&str>, preferred: &Option<String>) -> (e: String)
    ensures
        e@ == spec_emulator(
            match requested {
                Some(r) => Some(r@),
                None => None,
            },
            match preferred {
                Some(p) => Some(p@),
                None => None,
            },
        ),
{
    match requested {
        Some(r) => r.to_owned(),
        None => match preferred {
            Some(p) => p.clone(),
            None => String::from_str("ares"),
        },
    }
}

} // verus!
