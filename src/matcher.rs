//! The classifier: maps a callee name to what the call does to IR values and
//! their debug locations, by fixed tables of names.

use vstd::prelude::*;
use crate::text::{chars_of, range_is};

verus! {

/// How a debug-location update treats the location.
#[derive(PartialEq, Eq, Structural, Clone, Copy, Debug)]
pub enum DLUpdateKind {
    Preserving,
    Merging,
    Dropping,
}

impl DLUpdateKind {
    /// The checker's name for this kind.
    pub open spec fn text(&self) -> Seq<char> {
        match self {
            DLUpdateKind::Preserving => "UpdateKind::Preserving"@,
            DLUpdateKind::Merging => "UpdateKind::Merging"@,
            DLUpdateKind::Dropping => "UpdateKind::Dropping"@,
        }
    }

    pub fn as_str(&self) -> (r: &'static str)
        ensures
            r@ == self.text(),
    {
        match self {
            DLUpdateKind::Preserving => "UpdateKind::Preserving",
            DLUpdateKind::Merging => "UpdateKind::Merging",
            DLUpdateKind::Dropping => "UpdateKind::Dropping",
        }
    }
}

/// How a call or construction brings an IR value into being or moves it.
#[derive(PartialEq, Eq, Structural, Clone, Copy, Debug)]
pub enum ConstructKind {
    Creating,
    Cloning,
    Moving,
}

impl ConstructKind {
    /// The checker's name for this kind.
    pub open spec fn text(&self) -> Seq<char> {
        match self {
            ConstructKind::Creating => "ConstructKind::Creating"@,
            ConstructKind::Cloning => "ConstructKind::Cloning"@,
            ConstructKind::Moving => "ConstructKind::Moving"@,
        }
    }

    pub fn as_str(&self) -> (r: &'static str)
        ensures
            r@ == self.text(),
    {
        match self {
            ConstructKind::Creating => "ConstructKind::Creating",
            ConstructKind::Cloning => "ConstructKind::Cloning",
            ConstructKind::Moving => "ConstructKind::Moving",
        }
    }
}

/// Qualified factory names: a callee that starts with one of them creates a value.
pub open spec fn create_prefixes() -> Seq<Seq<char>> {
    seq![
        "BinaryOperator::Create"@,
        "BranchInst::Create"@,
        "CallBase::Create"@,
        "CallBase::addOperandBundle"@,
        "CallBase::removeOperandBundle"@,
        "CallBrInst::Create"@,
        "CallInst::Create"@,
        "CmpInst::Create"@,
        "ExtractElementInst::Create"@,
        "GetElementPtrInst::Create"@,
        "InsertElementInst::Create"@,
        "InsertValueInst::Create"@,
        "PHINode::Create"@,
        "ReturnInst::Create"@,
        "SelectInst::Create"@,
        "SwitchInst::Create"@,
        "UnaryOperator::Create"@,
        "ExtractValueInst::Create"@,
        "CastInst::Create"@,
    ]
}

/// Instruction type names: a callee (or constructed type) equal to one of them creates a value.
pub open spec fn create_names() -> Seq<Seq<char>> {
    seq![
        "FCmpInst"@,
        "ICmpInst"@,
        "StoreInst"@,
        "LoadInst"@,
        "FreezeInst"@,
        "AddrSpaceCastInst"@,
        "BitCastInst"@,
        "FPExtInst"@,
        "FPToSIInst"@,
        "FPToUIInst"@,
        "FPTruncInst"@,
        "IntToPtrInst"@,
        "PtrToIntInst"@,
        "SExtInst"@,
        "SIToFPInst"@,
        "TruncInst"@,
        "UIToFPInst"@,
        "ZExtInst"@,
    ]
}

/// Accessors that relocate an existing instruction.
pub open spec fn move_names() -> Seq<Seq<char>> {
    seq!["moveBefore"@, "moveBeforePreserving"@, "moveAfter"@]
}

/// Accessors that insert an instruction into a block.
pub open spec fn insert_names() -> Seq<Seq<char>> {
    seq!["insertBefore"@, "insertAfter"@, "insertInto"@]
}

/// Accessors that substitute one value for another.
pub open spec fn replace_names() -> Seq<Seq<char>> {
    seq!["replaceAllUsesWith"@, "replaceUsesOfWith"@]
}

/// The suffix of a pass's entry-point name.
pub open spec fn pass_entry_suffix() -> Seq<char> {
    "Pass::run"@
}

pub open spec fn is_prefix(p: Seq<char>, s: Seq<char>) -> bool {
    p.len() <= s.len() && s.subrange(0, p.len() as int) == p
}

pub open spec fn is_suffix(p: Seq<char>, s: Seq<char>) -> bool {
    p.len() <= s.len() && s.subrange(s.len() - p.len(), s.len() as int) == p
}

/// Whether a callee of this name creates a value.
pub open spec fn is_creating(s: Seq<char>) -> bool {
    (exists|i: int| 0 <= i < create_prefixes().len() && is_prefix(#[trigger] create_prefixes()[i], s))
        || create_names().contains(s)
}

pub open spec fn spec_construct(s: Seq<char>) -> Option<ConstructKind> {
    if is_creating(s) {
        Some(ConstructKind::Creating)
    } else if s == "clone"@ {
        Some(ConstructKind::Cloning)
    } else if move_names().contains(s) {
        Some(ConstructKind::Moving)
    } else {
        None
    }
}

pub open spec fn spec_debugloc_update(s: Seq<char>) -> Option<DLUpdateKind> {
    if s == "setDebugLoc"@ {
        Some(DLUpdateKind::Preserving)
    } else if s == "applyMergedLocation"@ {
        Some(DLUpdateKind::Merging)
    } else if s == "dropLocation"@ || s == "updateLocationAfterHoist"@ {
        Some(DLUpdateKind::Dropping)
    } else {
        None
    }
}

pub open spec fn spec_replacement(s: Seq<char>) -> bool {
    replace_names().contains(s)
}

pub open spec fn spec_insertion(s: Seq<char>) -> bool {
    insert_names().contains(s)
}

pub open spec fn spec_pass_entry(s: Seq<char>) -> bool {
    is_suffix(pass_entry_suffix(), s)
}

/// The strings of `t`, as character sequences.
pub open spec fn texts(t: Seq<&str>) -> Seq<Seq<char>> {
    t.map_values(|s: &str| s@)
}

fn create_prefix_table() -> (r: Vec<&'static str>)
    ensures
        texts(r@) == create_prefixes(),
{
    let r = vec![
        "BinaryOperator::Create",
        "BranchInst::Create",
        "CallBase::Create",
        "CallBase::addOperandBundle",
        "CallBase::removeOperandBundle",
        "CallBrInst::Create",
        "CallInst::Create",
        "CmpInst::Create",
        "ExtractElementInst::Create",
        "GetElementPtrInst::Create",
        "InsertElementInst::Create",
        "InsertValueInst::Create",
        "PHINode::Create",
        "ReturnInst::Create",
        "SelectInst::Create",
        "SwitchInst::Create",
        "UnaryOperator::Create",
        "ExtractValueInst::Create",
        "CastInst::Create",
    ];
    assert(texts(r@) =~= create_prefixes());
    r
}

fn create_name_table() -> (r: Vec<&'static str>)
    ensures
        texts(r@) == create_names(),
{
    let r = vec![
        "FCmpInst",
        "ICmpInst",
        "StoreInst",
        "LoadInst",
        "FreezeInst",
        "AddrSpaceCastInst",
        "BitCastInst",
        "FPExtInst",
        "FPToSIInst",
        "FPToUIInst",
        "FPTruncInst",
        "IntToPtrInst",
        "PtrToIntInst",
        "SExtInst",
        "SIToFPInst",
        "TruncInst",
        "UIToFPInst",
        "ZExtInst",
    ];
    assert(texts(r@) =~= create_names());
    r
}

fn move_table() -> (r: Vec<&'static str>)
    ensures
        texts(r@) == move_names(),
{
    let r = vec!["moveBefore", "moveBeforePreserving", "moveAfter"];
    assert(texts(r@) =~= move_names());
    r
}

fn insert_table() -> (r: Vec<&'static str>)
    ensures
        texts(r@) == insert_names(),
{
    let r = vec!["insertBefore", "insertAfter", "insertInto"];
    assert(texts(r@) =~= insert_names());
    r
}

fn replace_table() -> (r: Vec<&'static str>)
    ensures
        texts(r@) == replace_names(),
{
    let r = vec!["replaceAllUsesWith", "replaceUsesOfWith"];
    assert(texts(r@) =~= replace_names());
    r
}

/// Whether `v` starts with `p`.
pub fn starts_with(v: &Vec<char>, p: &str) -> (r: bool)
    ensures
        r == is_prefix(p@, v@),
{
    let n = p.unicode_len();
    if n > v.len() {
        false
    } else {
        range_is(v, 0, n, p)
    }
}

/// Whether `v` ends with `p`.
pub fn ends_with(v: &Vec<char>, p: &str) -> (r: bool)
    ensures
        r == is_suffix(p@, v@),
{
    let n = p.unicode_len();
    if n > v.len() {
        false
    } else {
        range_is(v, v.len() - n, v.len(), p)
    }
}

/// Whether `v` is one of the strings of `table`.
fn is_one_of(v: &Vec<char>, table: &Vec<&str>) -> (r: bool)
    ensures
        r == texts(table@).contains(v@),
{
    let mut i: usize = 0;
    while i < table.len()
        invariant
            i <= table@.len(),
            forall|j: int| 0 <= j < i ==> texts(table@)[j] != v@,
        decreases table.len() - i,
    {
        let n = table[i].unicode_len();
        if n == v.len() && range_is(v, 0, n, table[i]) {
            assert(v@.subrange(0, n as int) =~= v@);
            assert(texts(table@)[i as int] == v@);
            return true;
        }
        proof {
            if n == v.len() {
                assert(v@.subrange(0, n as int) =~= v@);
            }
        }
        i = i + 1;
    }
    false
}

/// Whether one of the strings of `table` starts `v`.
fn has_prefix_in(v: &Vec<char>, table: &Vec<&str>) -> (r: bool)
    ensures
        r == exists|i: int| 0 <= i < table@.len() && is_prefix(#[trigger] texts(table@)[i], v@),
{
    let mut i: usize = 0;
    while i < table.len()
        invariant
            i <= table@.len(),
            forall|j: int| 0 <= j < i ==> !is_prefix(#[trigger] texts(table@)[j], v@),
        decreases table.len() - i,
    {
        if starts_with(v, table[i]) {
            assert(is_prefix(texts(table@)[i as int], v@));
            return true;
        }
        i = i + 1;
    }
    false
}

fn name_is_creating(v: &Vec<char>) -> (r: bool)
    ensures
        r == is_creating(v@),
{
    let prefixes = create_prefix_table();
    let names = create_name_table();
    has_prefix_in(v, &prefixes) || is_one_of(v, &names)
}

/// Classification of callee names.
pub trait FuncMatch {
    spec fn name_text(&self) -> Seq<char>;

    fn is_construct(&self) -> (r: Option<ConstructKind>)
        ensures
            r == spec_construct(self.name_text()),
    ;

    fn is_replacement(&self) -> (r: bool)
        ensures
            r == spec_replacement(self.name_text()),
    ;

    fn is_debugloc_update(&self) -> (r: Option<DLUpdateKind>)
        ensures
            r == spec_debugloc_update(self.name_text()),
    ;

    fn is_pass_entry(&self) -> (r: bool)
        ensures
            r == spec_pass_entry(self.name_text()),
    ;

    fn is_insertion(&self) -> (r: bool)
        ensures
            r == spec_insertion(self.name_text()),
    ;
}

impl FuncMatch for String {
    open spec fn name_text(&self) -> Seq<char> {
        self@
    }

    fn is_construct(&self) -> (r: Option<ConstructKind>) {
        let v = chars_of(self.as_str());
        if name_is_creating(&v) {
            return Some(ConstructKind::Creating);
        }
        let mut clone_table: Vec<&str> = Vec::new();
        clone_table.push("clone");
        assert(texts(clone_table@) =~= seq!["clone"@]);
        if is_one_of(&v, &clone_table) {
            assert(v@ == "clone"@);
            return Some(ConstructKind::Cloning);
        }
        assert(!(texts(clone_table@)[0] == v@));
        if is_one_of(&v, &move_table()) {
            return Some(ConstructKind::Moving);
        }
        None
    }

    fn is_replacement(&self) -> (r: bool) {
        let v = chars_of(self.as_str());
        is_one_of(&v, &replace_table())
    }

    fn is_debugloc_update(&self) -> (r: Option<DLUpdateKind>) {
        let v = chars_of(self.as_str());
        assert(v@.subrange(0, v@.len() as int) =~= v@);
        if range_is(&v, 0, v.len(), "setDebugLoc") {
            Some(DLUpdateKind::Preserving)
        } else if range_is(&v, 0, v.len(), "applyMergedLocation") {
            Some(DLUpdateKind::Merging)
        } else if range_is(&v, 0, v.len(), "dropLocation") || range_is(
            &v,
            0,
            v.len(),
            "updateLocationAfterHoist",
        ) {
            Some(DLUpdateKind::Dropping)
        } else {
            None
        }
    }

    fn is_pass_entry(&self) -> (r: bool) {
        let v = chars_of(self.as_str());
        ends_with(&v, "Pass::run")
    }

    fn is_insertion(&self) -> (r: bool) {
        let v = chars_of(self.as_str());
        is_one_of(&v, &insert_table())
    }
}


/// Every entry of the creating tables starts with an upper-case letter.
proof fn lemma_create_tables_upper()
    ensures
        forall|i: int|
            0 <= i < create_prefixes().len() ==> {
                &&& (#[trigger] create_prefixes()[i]).len() > 0
                &&& 'A' <= create_prefixes()[i][0] <= 'Z'
            },
        forall|i: int|
            0 <= i < create_names().len() ==> {
                &&& (#[trigger] create_names()[i]).len() > 0
                &&& 'A' <= create_names()[i][0] <= 'Z'
            },
{
    reveal_strlit("BinaryOperator::Create");
    reveal_strlit("BranchInst::Create");
    reveal_strlit("CallBase::Create");
    reveal_strlit("CallBase::addOperandBundle");
    reveal_strlit("CallBase::removeOperandBundle");
    reveal_strlit("CallBrInst::Create");
    reveal_strlit("CallInst::Create");
    reveal_strlit("CmpInst::Create");
    reveal_strlit("ExtractElementInst::Create");
    reveal_strlit("GetElementPtrInst::Create");
    reveal_strlit("InsertElementInst::Create");
    reveal_strlit("InsertValueInst::Create");
    reveal_strlit("PHINode::Create");
    reveal_strlit("ReturnInst::Create");
    reveal_strlit("SelectInst::Create");
    reveal_strlit("SwitchInst::Create");
    reveal_strlit("UnaryOperator::Create");
    reveal_strlit("ExtractValueInst::Create");
    reveal_strlit("CastInst::Create");
    reveal_strlit("FCmpInst");
    reveal_strlit("ICmpInst");
    reveal_strlit("StoreInst");
    reveal_strlit("LoadInst");
    reveal_strlit("FreezeInst");
    reveal_strlit("AddrSpaceCastInst");
    reveal_strlit("BitCastInst");
    reveal_strlit("FPExtInst");
    reveal_strlit("FPToSIInst");
    reveal_strlit("FPToUIInst");
    reveal_strlit("FPTruncInst");
    reveal_strlit("IntToPtrInst");
    reveal_strlit("PtrToIntInst");
    reveal_strlit("SExtInst");
    reveal_strlit("SIToFPInst");
    reveal_strlit("TruncInst");
    reveal_strlit("UIToFPInst");
    reveal_strlit("ZExtInst");
    assert(create_prefixes()[0][0] == 'B');
    assert(create_prefixes()[1][0] == 'B');
    assert(create_prefixes()[2][0] == 'C');
    assert(create_prefixes()[3][0] == 'C');
    assert(create_prefixes()[4][0] == 'C');
    assert(create_prefixes()[5][0] == 'C');
    assert(create_prefixes()[6][0] == 'C');
    assert(create_prefixes()[7][0] == 'C');
    assert(create_prefixes()[8][0] == 'E');
    assert(create_prefixes()[9][0] == 'G');
    assert(create_prefixes()[10][0] == 'I');
    assert(create_prefixes()[11][0] == 'I');
    assert(create_prefixes()[12][0] == 'P');
    assert(create_prefixes()[13][0] == 'R');
    assert(create_prefixes()[14][0] == 'S');
    assert(create_prefixes()[15][0] == 'S');
    assert(create_prefixes()[16][0] == 'U');
    assert(create_prefixes()[17][0] == 'E');
    assert(create_prefixes()[18][0] == 'C');
    assert(create_names()[0][0] == 'F');
    assert(create_names()[1][0] == 'I');
    assert(create_names()[2][0] == 'S');
    assert(create_names()[3][0] == 'L');
    assert(create_names()[4][0] == 'F');
    assert(create_names()[5][0] == 'A');
    assert(create_names()[6][0] == 'B');
    assert(create_names()[7][0] == 'F');
    assert(create_names()[8][0] == 'F');
    assert(create_names()[9][0] == 'F');
    assert(create_names()[10][0] == 'F');
    assert(create_names()[11][0] == 'I');
    assert(create_names()[12][0] == 'P');
    assert(create_names()[13][0] == 'S');
    assert(create_names()[14][0] == 'S');
    assert(create_names()[15][0] == 'T');
    assert(create_names()[16][0] == 'U');
    assert(create_names()[17][0] == 'Z');
}

/// A name that starts with a lower-case letter does not create a value.
proof fn lemma_lower_not_creating(s: Seq<char>)
    requires
        s.len() > 0,
        'a' <= s[0] <= 'z',
    ensures
        !is_creating(s),
{
    lemma_create_tables_upper();
    assert forall|i: int| 0 <= i < create_prefixes().len() implies !is_prefix(
        #[trigger] create_prefixes()[i],
        s,
    ) by {
        let p = create_prefixes()[i];
        if p.len() <= s.len() {
            assert(s.subrange(0, p.len() as int)[0] != p[0]);
        }
    }
    assert forall|i: int| 0 <= i < create_names().len() implies #[trigger] create_names()[i] != s by {
        assert(create_names()[i][0] != s[0]);
    }
}

/// The names that do not create a value, and their classes.
proof fn lemma_accessor_names(s: Seq<char>)
    ensures
        s == "clone"@ || move_names().contains(s) || insert_names().contains(s)
            || replace_names().contains(s) || spec_debugloc_update(s) is Some || s == "foo"@
            ==> !is_creating(s),
{
    reveal_strlit("clone");
    reveal_strlit("moveBefore");
    reveal_strlit("moveBeforePreserving");
    reveal_strlit("moveAfter");
    reveal_strlit("insertBefore");
    reveal_strlit("insertAfter");
    reveal_strlit("insertInto");
    reveal_strlit("replaceAllUsesWith");
    reveal_strlit("replaceUsesOfWith");
    reveal_strlit("setDebugLoc");
    reveal_strlit("applyMergedLocation");
    reveal_strlit("dropLocation");
    reveal_strlit("updateLocationAfterHoist");
    reveal_strlit("foo");
    if s == "clone"@ || move_names().contains(s) || insert_names().contains(s)
        || replace_names().contains(s) || spec_debugloc_update(s) is Some || s == "foo"@ {
        assert(s.len() > 0 && 'a' <= s[0] <= 'z');
        lemma_lower_not_creating(s);
    }
}

/// An entry of the creating tables is none of the accessor names.
proof fn lemma_creating_entries(s: Seq<char>)
    requires
        create_prefixes().contains(s) || create_names().contains(s),
    ensures
        is_creating(s),
        !spec_replacement(s),
        spec_debugloc_update(s) is None,
        !spec_insertion(s),
{
    lemma_create_tables_upper();
    reveal_strlit("clone");
    reveal_strlit("moveBefore");
    reveal_strlit("moveBeforePreserving");
    reveal_strlit("moveAfter");
    reveal_strlit("insertBefore");
    reveal_strlit("insertAfter");
    reveal_strlit("insertInto");
    reveal_strlit("replaceAllUsesWith");
    reveal_strlit("replaceUsesOfWith");
    reveal_strlit("setDebugLoc");
    reveal_strlit("applyMergedLocation");
    reveal_strlit("dropLocation");
    reveal_strlit("updateLocationAfterHoist");
    reveal_strlit("foo");
    if create_prefixes().contains(s) {
        let i = choose|i: int| 0 <= i < create_prefixes().len() && create_prefixes()[i] == s;
        assert(s.subrange(0, s.len() as int) =~= s);
        assert(is_prefix(create_prefixes()[i], s));
    } else {
        let i = choose|i: int| 0 <= i < create_names().len() && create_names()[i] == s;
    }
    assert('A' <= s[0] <= 'Z');
}

/// How each accessor name stands in the accessor tables.
proof fn lemma_accessor_tables(s: Seq<char>)
    ensures
        s == "clone"@ || s == "foo"@ || spec_debugloc_update(s) is Some ==> !move_names().contains(s)
            && !insert_names().contains(s) && !replace_names().contains(s),
        move_names().contains(s) ==> !insert_names().contains(s) && !replace_names().contains(s)
            && spec_debugloc_update(s) is None && s != "clone"@,
        insert_names().contains(s) ==> !move_names().contains(s) && !replace_names().contains(s)
            && spec_debugloc_update(s) is None && s != "clone"@,
        replace_names().contains(s) ==> !move_names().contains(s) && !insert_names().contains(s)
            && spec_debugloc_update(s) is None && s != "clone"@,
{
    reveal_strlit("clone");
    reveal_strlit("moveBefore");
    reveal_strlit("moveBeforePreserving");
    reveal_strlit("moveAfter");
    reveal_strlit("insertBefore");
    reveal_strlit("insertAfter");
    reveal_strlit("insertInto");
    reveal_strlit("replaceAllUsesWith");
    reveal_strlit("replaceUsesOfWith");
    reveal_strlit("setDebugLoc");
    reveal_strlit("applyMergedLocation");
    reveal_strlit("dropLocation");
    reveal_strlit("updateLocationAfterHoist");
    reveal_strlit("foo");
    if move_names().contains(s) {
        let i = choose|i: int| 0 <= i < move_names().len() && move_names()[i] == s;
        assert(s == "moveBefore"@ || s == "moveBeforePreserving"@ || s == "moveAfter"@);
    }
    if insert_names().contains(s) {
        let i = choose|i: int| 0 <= i < insert_names().len() && insert_names()[i] == s;
        assert(s == "insertBefore"@ || s == "insertAfter"@ || s == "insertInto"@);
    }
    if replace_names().contains(s) {
        let i = choose|i: int| 0 <= i < replace_names().len() && replace_names()[i] == s;
        assert(s == "replaceAllUsesWith"@ || s == "replaceUsesOfWith"@);
    }
    if s == "clone"@ {
        assert(move_names()[0].len() != s.len());
        assert(move_names()[1].len() != s.len());
        assert(move_names()[2].len() != s.len());
        assert(insert_names()[0].len() != s.len());
        assert(insert_names()[1].len() != s.len());
        assert(insert_names()[2].len() != s.len());
        assert(replace_names()[0].len() != s.len());
        assert(replace_names()[1].len() != s.len());
    }
    if s == "moveBefore"@ {
        assert(move_names()[0] == s);
        assert(move_names()[1].len() != s.len());
        assert(move_names()[2].len() != s.len());
        assert(insert_names()[0].len() != s.len());
        assert(insert_names()[1].len() != s.len());
        assert(insert_names()[2][0] != s[0]);
        assert(replace_names()[0].len() != s.len());
        assert(replace_names()[1].len() != s.len());
    }
    if s == "moveBeforePreserving"@ {
        assert(move_names()[0].len() != s.len());
        assert(move_names()[1] == s);
        assert(move_names()[2].len() != s.len());
        assert(insert_names()[0].len() != s.len());
        assert(insert_names()[1].len() != s.len());
        assert(insert_names()[2].len() != s.len());
        assert(replace_names()[0].len() != s.len());
        assert(replace_names()[1].len() != s.len());
    }
    if s == "moveAfter"@ {
        assert(move_names()[0].len() != s.len());
        assert(move_names()[1].len() != s.len());
        assert(move_names()[2] == s);
        assert(insert_names()[0].len() != s.len());
        assert(insert_names()[1].len() != s.len());
        assert(insert_names()[2].len() != s.len());
        assert(replace_names()[0].len() != s.len());
        assert(replace_names()[1].len() != s.len());
    }
    if s == "insertBefore"@ {
        assert(move_names()[0].len() != s.len());
        assert(move_names()[1].len() != s.len());
        assert(move_names()[2].len() != s.len());
        assert(insert_names()[0] == s);
        assert(insert_names()[1].len() != s.len());
        assert(insert_names()[2].len() != s.len());
        assert(replace_names()[0].len() != s.len());
        assert(replace_names()[1].len() != s.len());
    }
    if s == "insertAfter"@ {
        assert(move_names()[0].len() != s.len());
        assert(move_names()[1].len() != s.len());
        assert(move_names()[2].len() != s.len());
        assert(insert_names()[0].len() != s.len());
        assert(insert_names()[1] == s);
        assert(insert_names()[2].len() != s.len());
        assert(replace_names()[0].len() != s.len());
        assert(replace_names()[1].len() != s.len());
    }
    if s == "insertInto"@ {
        assert(move_names()[0][0] != s[0]);
        assert(move_names()[1].len() != s.len());
        assert(move_names()[2].len() != s.len());
        assert(insert_names()[0].len() != s.len());
        assert(insert_names()[1].len() != s.len());
        assert(insert_names()[2] == s);
        assert(replace_names()[0].len() != s.len());
        assert(replace_names()[1].len() != s.len());
    }
    if s == "replaceAllUsesWith"@ {
        assert(move_names()[0].len() != s.len());
        assert(move_names()[1].len() != s.len());
        assert(move_names()[2].len() != s.len());
        assert(insert_names()[0].len() != s.len());
        assert(insert_names()[1].len() != s.len());
        assert(insert_names()[2].len() != s.len());
        assert(replace_names()[0] == s);
        assert(replace_names()[1].len() != s.len());
    }
    if s == "replaceUsesOfWith"@ {
        assert(move_names()[0].len() != s.len());
        assert(move_names()[1].len() != s.len());
        assert(move_names()[2].len() != s.len());
        assert(insert_names()[0].len() != s.len());
        assert(insert_names()[1].len() != s.len());
        assert(insert_names()[2].len() != s.len());
        assert(replace_names()[0].len() != s.len());
        assert(replace_names()[1] == s);
    }
    if s == "setDebugLoc"@ {
        assert(move_names()[0].len() != s.len());
        assert(move_names()[1].len() != s.len());
        assert(move_names()[2].len() != s.len());
        assert(insert_names()[0].len() != s.len());
        assert(insert_names()[1][0] != s[0]);
        assert(insert_names()[2].len() != s.len());
        assert(replace_names()[0].len() != s.len());
        assert(replace_names()[1].len() != s.len());
    }
    if s == "applyMergedLocation"@ {
        assert(move_names()[0].len() != s.len());
        assert(move_names()[1].len() != s.len());
        assert(move_names()[2].len() != s.len());
        assert(insert_names()[0].len() != s.len());
        assert(insert_names()[1].len() != s.len());
        assert(insert_names()[2].len() != s.len());
        assert(replace_names()[0].len() != s.len());
        assert(replace_names()[1].len() != s.len());
    }
    if s == "dropLocation"@ {
        assert(move_names()[0].len() != s.len());
        assert(move_names()[1].len() != s.len());
        assert(move_names()[2].len() != s.len());
        assert(insert_names()[0][0] != s[0]);
        assert(insert_names()[1].len() != s.len());
        assert(insert_names()[2].len() != s.len());
        assert(replace_names()[0].len() != s.len());
        assert(replace_names()[1].len() != s.len());
    }
    if s == "updateLocationAfterHoist"@ {
        assert(move_names()[0].len() != s.len());
        assert(move_names()[1].len() != s.len());
        assert(move_names()[2].len() != s.len());
        assert(insert_names()[0].len() != s.len());
        assert(insert_names()[1].len() != s.len());
        assert(insert_names()[2].len() != s.len());
        assert(replace_names()[0].len() != s.len());
        assert(replace_names()[1].len() != s.len());
    }
    if s == "foo"@ {
        assert(move_names()[0].len() != s.len());
        assert(move_names()[1].len() != s.len());
        assert(move_names()[2].len() != s.len());
        assert(insert_names()[0].len() != s.len());
        assert(insert_names()[1].len() != s.len());
        assert(insert_names()[2].len() != s.len());
        assert(replace_names()[0].len() != s.len());
        assert(replace_names()[1].len() != s.len());
    }
}

/// Only the category of its own table is given to a name of a table, and a
/// name of no table ("foo") is given none; a name is a pass entry exactly
/// when it ends with the entry suffix.
pub proof fn lemma_classifier_totality(s: Seq<char>)
    ensures
        create_prefixes().contains(s) || create_names().contains(s) ==> {
            &&& spec_construct(s) == Some(ConstructKind::Creating)
            &&& !spec_replacement(s)
            &&& spec_debugloc_update(s) is None
            &&& !spec_insertion(s)
        },
        s == "clone"@ ==> {
            &&& spec_construct(s) == Some(ConstructKind::Cloning)
            &&& !spec_replacement(s)
            &&& spec_debugloc_update(s) is None
            &&& !spec_insertion(s)
        },
        move_names().contains(s) ==> {
            &&& spec_construct(s) == Some(ConstructKind::Moving)
            &&& !spec_replacement(s)
            &&& spec_debugloc_update(s) is None
            &&& !spec_insertion(s)
        },
        insert_names().contains(s) ==> {
            &&& spec_construct(s) is None
            &&& !spec_replacement(s)
            &&& spec_debugloc_update(s) is None
            &&& spec_insertion(s)
        },
        replace_names().contains(s) ==> {
            &&& spec_construct(s) is None
            &&& spec_replacement(s)
            &&& spec_debugloc_update(s) is None
            &&& !spec_insertion(s)
        },
        spec_debugloc_update(s) is Some ==> {
            &&& spec_construct(s) is None
            &&& !spec_replacement(s)
            &&& !spec_insertion(s)
        },
        s == "foo"@ ==> {
            &&& spec_construct(s) is None
            &&& !spec_replacement(s)
            &&& spec_debugloc_update(s) is None
            &&& !spec_insertion(s)
            &&& !spec_pass_entry(s)
        },
        spec_pass_entry(s) == is_suffix("Pass::run"@, s),
{
    reveal_strlit("clone");
    reveal_strlit("moveBefore");
    reveal_strlit("moveBeforePreserving");
    reveal_strlit("moveAfter");
    reveal_strlit("insertBefore");
    reveal_strlit("insertAfter");
    reveal_strlit("insertInto");
    reveal_strlit("replaceAllUsesWith");
    reveal_strlit("replaceUsesOfWith");
    reveal_strlit("setDebugLoc");
    reveal_strlit("applyMergedLocation");
    reveal_strlit("dropLocation");
    reveal_strlit("updateLocationAfterHoist");
    reveal_strlit("foo");
    lemma_accessor_names(s);
    lemma_accessor_tables(s);
    if create_prefixes().contains(s) || create_names().contains(s) {
        lemma_creating_entries(s);
    }
    if s == "foo"@ {
        reveal_strlit("Pass::run");
        assert(pass_entry_suffix().len() > s.len());
    }
}

} // verus!
