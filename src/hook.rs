//! The fixed texts the instrumentation inserts, and the markers by which an
//! instrumented file is recognized.

use vstd::prelude::*;
use crate::text::{chars_of, contains, occurs_in, decimal, decimal_string};
use crate::matcher::ConstructKind;

verus! {

/// The fixed hook texts.
pub struct Hook;

/// The line that brings the runtime checker's declarations in.
pub open spec fn header_include_text() -> Seq<char> {
    "#include \"llvm/Transforms/Utils/RuntimeChecker.h\"\n"@
}

/// The line that declares the checker handle `RC`.
pub open spec fn global_var_decl_text() -> Seq<char> {
    "namespace { RuntimeChecker *RC = nullptr; }\n"@
}

/// The call that runs the checker's final check.
pub open spec fn start_check_text() -> Seq<char> {
    "RC->startCheck();"@
}

/// The start of the statement that constructs the checker.
pub open spec fn checker_init_text() -> Seq<char> {
    "RC = new RuntimeChecker"@
}

impl Hook {
    pub fn header_include() -> (r: &'static str)
        ensures
            r@ == header_include_text(),
    {
        "#include \"llvm/Transforms/Utils/RuntimeChecker.h\"\n"
    }

    pub fn global_var_decl() -> (r: &'static str)
        ensures
            r@ == global_var_decl_text(),
    {
        "namespace { RuntimeChecker *RC = nullptr; }\n"
    }
}

/// The four texts an instrumented file holds.
#[derive(PartialEq, Eq, Structural, Clone, Copy, Debug)]
pub enum Marker {
    HeaderInclude,
    GlobalVar,
    StartCheck,
    CheckerInit,
}

impl Marker {
    pub open spec fn text(&self) -> Seq<char> {
        match self {
            Marker::HeaderInclude => header_include_text(),
            Marker::GlobalVar => global_var_decl_text(),
            Marker::StartCheck => start_check_text(),
            Marker::CheckerInit => checker_init_text(),
        }
    }
}

/// The first marker, in the order of `Marker`'s variants, that `buf` lacks.
pub open spec fn spec_missing_marker(buf: Seq<char>) -> Option<Marker> {
    if !occurs_in(buf, header_include_text()) {
        Some(Marker::HeaderInclude)
    } else if !occurs_in(buf, global_var_decl_text()) {
        Some(Marker::GlobalVar)
    } else if !occurs_in(buf, start_check_text()) {
        Some(Marker::StartCheck)
    } else if !occurs_in(buf, checker_init_text()) {
        Some(Marker::CheckerInit)
    } else {
        None
    }
}

/// Whether `buf` holds all four markers of an instrumented file.
pub open spec fn is_instrumented(buf: Seq<char>) -> bool {
    &&& occurs_in(buf, header_include_text())
    &&& occurs_in(buf, global_var_decl_text())
    &&& occurs_in(buf, start_check_text())
    &&& occurs_in(buf, checker_init_text())
}

/// The first marker that `buf` lacks, if any.
pub fn missing_marker(buf: &str) -> (r: Option<Marker>)
    ensures
        r == spec_missing_marker(buf@),
        r is None == is_instrumented(buf@),
{
    let v = chars_of(buf);
    if !contains(&v, Hook::header_include()) {
        Some(Marker::HeaderInclude)
    } else if !contains(&v, Hook::global_var_decl()) {
        Some(Marker::GlobalVar)
    } else if !contains(&v, "RC->startCheck();") {
        Some(Marker::StartCheck)
    } else if !contains(&v, "RC = new RuntimeChecker") {
        Some(Marker::CheckerInit)
    } else {
        None
    }
}

/// Whether `buf` holds all four markers of an instrumented file.
pub fn check_code(buf: &str) -> (r: bool)
    ensures
        r == is_instrumented(buf@),
{
    missing_marker(buf).is_none()
}

/// The call recording that `d` took its debug location from `s` by `kind`,
/// on line `row`, with display names `dn` and `sn` (no closing `;`).
pub open spec fn track_dst_call(
    d: Seq<char>,
    s: Seq<char>,
    kind: ConstructKind,
    row: nat,
    dn: Seq<char>,
    sn: Seq<char>,
) -> Seq<char> {
    " RC->trackDebugLocDst("@ + d + ", "@ + s + ", "@ + kind.text() + ", "@ + decimal(row) + ", \""@
        + dn + "\", \""@ + sn + "\")"@
}

/// `track_dst_call` as a statement.
pub open spec fn track_dst_stmt(
    d: Seq<char>,
    s: Seq<char>,
    kind: ConstructKind,
    row: nat,
    dn: Seq<char>,
    sn: Seq<char>,
) -> Seq<char> {
    track_dst_call(d, s, kind, row, dn, sn) + ";"@
}

/// The statement recording a replacement of `DebugLocSrc` by `DebugLocDst`.
pub open spec fn track_src_stmt(row: nat, a: Seq<char>, b: Seq<char>) -> Seq<char> {
    "RC->trackDebugLocSrc(DebugLocDst, DebugLocSrc, "@ + decimal(row) + ", \""@ + a + "\", \""@ + b
        + "\");"@
}

/// The tail of a block recording that `d` keeps its debug location.
pub open spec fn preserving_tail(d: Seq<char>, row: nat) -> Seq<char> {
    " RC->trackDebugLocPreserving("@ + d + ", nullptr, "@ + decimal(row) + ", \""@ + d
        + "\", \"nullptr\"); }"@
}

/// The statement recording that `d` gets a debug location merged from
/// those of `s1` and `s2` (each `nullptr` when its origin is unknown).
pub open spec fn merging_stmt(d: Seq<char>, s1: Seq<char>, s2: Seq<char>, row: nat) -> Seq<char> {
    " RC->trackDebugLocMerging("@ + d + ", "@ + s1 + ", "@ + s2 + ", "@ + decimal(row) + ", \"\", \""@
        + s1 + "\", \""@ + s2 + "\");"@
}

/// The tail of a block recording that `d` (reached through `addr`) drops its debug location.
pub open spec fn dropping_tail(addr: Seq<char>, d: Seq<char>, row: nat) -> Seq<char> {
    " RC->trackDebugLocDropping("@ + addr + d + ", "@ + decimal(row) + ", \""@ + d + "\"); }"@
}

/// The head of a block recording that `i` (reached through `addr`) is inserted at `pos`.
pub open spec fn insertion_head(addr: Seq<char>, i: Seq<char>, pos: Seq<char>, row: nat) -> Seq<char> {
    "{ RC->trackInsertion("@ + addr + i + ", "@ + pos + ", "@ + decimal(row) + ", \""@ + i + "\", \""@
        + pos + "\"); "@
}

/// The statement that constructs the checker for `target` of file `file`.
pub open spec fn checker_init(target: Seq<char>, file: Seq<char>) -> Seq<char> {
    "RC = new RuntimeChecker("@ + target + ", \""@ + file + "\");\n  "@
}

/// The head of the block that runs the final check before a return.
pub open spec fn return_head() -> Seq<char> {
    "{ RC->startCheck(); delete RC; "@
}

/// The text `parts[0] + parts[1] + ...`.
pub fn concat(parts: &Vec<&str>) -> (r: String)
    ensures
        r@ == concat_all(parts@),
{
    let mut r = String::new();
    let mut i: usize = 0;
    while i < parts.len()
        invariant
            i <= parts@.len(),
            r@ == concat_all(parts@.take(i as int)),
        decreases parts.len() - i,
    {
        r.append(parts[i]);
        assert(parts@.take(i + 1).drop_last() =~= parts@.take(i as int));
        i = i + 1;
    }
    assert(parts@.take(i as int) =~= parts@);
    r
}

/// The strings of `parts` one after the other.
pub open spec fn concat_all(parts: Seq<&str>) -> Seq<char>
    decreases parts.len(),
{
    if parts.len() == 0 {
        seq![]
    } else {
        concat_all(parts.drop_last()) + parts.last()@
    }
}

pub fn make_track_dst_call(
    d: &str,
    s: &str,
    kind: ConstructKind,
    row: usize,
    dn: &str,
    sn: &str,
) -> (r: String)
    ensures
        r@ == track_dst_call(d@, s@, kind, row as nat, dn@, sn@),
{
    let row_s = decimal_string(row);
    let parts = vec![
        " RC->trackDebugLocDst(",
        d,
        ", ",
        s,
        ", ",
        kind.as_str(),
        ", ",
        row_s.as_str(),
        ", \"",
        dn,
        "\", \"",
        sn,
        "\")",
    ];
    let r = concat(&parts);
    proof {
        reveal_with_fuel(concat_all, 14);
    }
    r
}

pub fn make_track_dst_stmt(
    d: &str,
    s: &str,
    kind: ConstructKind,
    row: usize,
    dn: &str,
    sn: &str,
) -> (r: String)
    ensures
        r@ == track_dst_stmt(d@, s@, kind, row as nat, dn@, sn@),
{
    let mut r = make_track_dst_call(d, s, kind, row, dn, sn);
    r.append(";");
    r
}

pub fn make_track_src_stmt(row: usize, a: &str, b: &str) -> (r: String)
    ensures
        r@ == track_src_stmt(row as nat, a@, b@),
{
    let row_s = decimal_string(row);
    let parts = vec![
        "RC->trackDebugLocSrc(DebugLocDst, DebugLocSrc, ",
        row_s.as_str(),
        ", \"",
        a,
        "\", \"",
        b,
        "\");",
    ];
    let r = concat(&parts);
    proof {
        reveal_with_fuel(concat_all, 8);
    }
    r
}

pub fn make_preserving_tail(d: &str, row: usize) -> (r: String)
    ensures
        r@ == preserving_tail(d@, row as nat),
{
    let row_s = decimal_string(row);
    let parts = vec![
        " RC->trackDebugLocPreserving(",
        d,
        ", nullptr, ",
        row_s.as_str(),
        ", \"",
        d,
        "\", \"nullptr\"); }",
    ];
    let r = concat(&parts);
    proof {
        reveal_with_fuel(concat_all, 8);
    }
    r
}

pub fn make_merging_stmt(d: &str, s1: &str, s2: &str, row: usize) -> (r: String)
    ensures
        r@ == merging_stmt(d@, s1@, s2@, row as nat),
{
    let row_s = decimal_string(row);
    let parts = vec![
        " RC->trackDebugLocMerging(",
        d,
        ", ",
        s1,
        ", ",
        s2,
        ", ",
        row_s.as_str(),
        ", \"\", \"",
        s1,
        "\", \"",
        s2,
        "\");",
    ];
    let r = concat(&parts);
    proof {
        reveal_with_fuel(concat_all, 14);
    }
    r
}

pub fn make_dropping_tail(addr: &str, d: &str, row: usize) -> (r: String)
    ensures
        r@ == dropping_tail(addr@, d@, row as nat),
{
    let row_s = decimal_string(row);
    let parts = vec![
        " RC->trackDebugLocDropping(",
        addr,
        d,
        ", ",
        row_s.as_str(),
        ", \"",
        d,
        "\"); }",
    ];
    let r = concat(&parts);
    proof {
        reveal_with_fuel(concat_all, 9);
    }
    r
}

pub fn make_insertion_head(addr: &str, i: &str, pos: &str, row: usize) -> (r: String)
    ensures
        r@ == insertion_head(addr@, i@, pos@, row as nat),
{
    let row_s = decimal_string(row);
    let parts = vec![
        "{ RC->trackInsertion(",
        addr,
        i,
        ", ",
        pos,
        ", ",
        row_s.as_str(),
        ", \"",
        i,
        "\", \"",
        pos,
        "\"); ",
    ];
    let r = concat(&parts);
    proof {
        reveal_with_fuel(concat_all, 13);
    }
    r
}

pub fn make_checker_init(target: &str, file: &str) -> (r: String)
    ensures
        r@ == checker_init(target@, file@),
{
    let parts = vec![
        "RC = new RuntimeChecker(",
        target,
        ", \"",
        file,
        "\");\n  ",
    ];
    let r = concat(&parts);
    proof {
        reveal_with_fuel(concat_all, 6);
    }
    r
}

} // verus!
