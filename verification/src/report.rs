//! Naming and assembly of the per-page output artifacts.
//!
//! Every reportable page becomes one text artifact; names of artifacts are
//! chosen so that a lexical sort reproduces chain and sample order: chains
//! are numbered from one, a chain's first page carries a `+start` mark that
//! sorts ahead of the zero-padded ids of the interior pages, and a corrupted
//! page is named after its position and the recorded payload CRC.

use vstd::prelude::*;

use vstd::string::StrSliceExecFns;
use vstd::string::StringExecFns;

use crate::chains::chain_bounds_spec;
use crate::chains::start_indices;
use crate::page::Page;
use crate::page::spec_is_session_start;
use crate::reconstruct::Sample;
use crate::reconstruct::page_schedule;
use crate::reconstruct::reconstruct_samples;
use crate::settings::PressureMeassureUnits;

verus! {

/// The decimal digit characters.
pub open spec fn digit_char(d: nat) -> char {
    if d == 0 {
        '0'
    } else if d == 1 {
        '1'
    } else if d == 2 {
        '2'
    } else if d == 3 {
        '3'
    } else if d == 4 {
        '4'
    } else if d == 5 {
        '5'
    } else if d == 6 {
        '6'
    } else if d == 7 {
        '7'
    } else if d == 8 {
        '8'
    } else {
        '9'
    }
}

/// The hexadecimal digit characters, upper case.
pub open spec fn hex_digit_char(d: nat) -> char {
    if d < 10 {
        digit_char(d)
    } else if d == 10 {
        'A'
    } else if d == 11 {
        'B'
    } else if d == 12 {
        'C'
    } else if d == 13 {
        'D'
    } else if d == 14 {
        'E'
    } else {
        'F'
    }
}

/// Decimal spelling of `n`, most significant digit first, no leading zeros.
pub open spec fn dec_digits(n: nat) -> Seq<char>
    decreases n,
{
    if n < 10 {
        seq![digit_char(n)]
    } else {
        dec_digits(n / 10).push(digit_char(n % 10))
    }
}

/// Hexadecimal spelling of `n mod 16^width` in exactly `width` digits,
/// upper case, zero padded.
pub open spec fn hex_digits_fixed(n: nat, width: nat) -> Seq<char>
    decreases width,
{
    if width == 0 {
        Seq::empty()
    } else {
        hex_digits_fixed(n / 16, (width - 1) as nat).push(hex_digit_char(n % 16))
    }
}

/// `s` left-padded with `'0'` to at least `width` characters.
pub open spec fn pad_zeros(s: Seq<char>, width: nat) -> Seq<char> {
    if s.len() >= width {
        s
    } else {
        Seq::new((width - s.len()) as nat, |i: int| '0') + s
    }
}

/// The one-character string of a decimal digit.
fn digit_str(d: u8) -> (s: &'static str)
    requires
        d < 10,
    ensures
        s@ =~= seq![digit_char(d as nat)],
{
    proof {
        reveal_strlit("0");
        reveal_strlit("1");
        reveal_strlit("2");
        reveal_strlit("3");
        reveal_strlit("4");
        reveal_strlit("5");
        reveal_strlit("6");
        reveal_strlit("7");
        reveal_strlit("8");
        reveal_strlit("9");
    }
    match d {
        0 => "0",
        1 => "1",
        2 => "2",
        3 => "3",
        4 => "4",
        5 => "5",
        6 => "6",
        7 => "7",
        8 => "8",
        _ => "9",
    }
}

/// The one-character string of an upper-case hexadecimal digit.
fn hex_digit_str(d: u8) -> (s: &'static str)
    requires
        d < 16,
    ensures
        s@ =~= seq![hex_digit_char(d as nat)],
{
    proof {
        reveal_strlit("A");
        reveal_strlit("B");
        reveal_strlit("C");
        reveal_strlit("D");
        reveal_strlit("E");
        reveal_strlit("F");
    }
    if d < 10 {
        digit_str(d)
    } else {
        match d {
            10 => "A",
            11 => "B",
            12 => "C",
            13 => "D",
            14 => "E",
            _ => "F",
        }
    }
}

/// Appends the decimal spelling of `n` to `out`.
fn push_dec_digits(n: u64, out: &mut String)
    ensures
        final(out)@ == old(out)@ + dec_digits(n as nat),
    decreases n,
{
    if n >= 10 {
        push_dec_digits(n / 10, out);
    }
    let d = (n % 10) as u8;
    out.append(digit_str(d));
    proof {
        assert(final(out)@ =~= old(out)@ + dec_digits(n as nat));
    }
}

/// Appends exactly `width` upper-case hexadecimal digits of `n` to `out`.
fn push_hex_digits(n: u32, width: u8, out: &mut String)
    ensures
        final(out)@ == old(out)@ + hex_digits_fixed(n as nat, width as nat),
    decreases width,
{
    if width > 0 {
        push_hex_digits(n / 16, width - 1, out);
        let d = (n % 16) as u8;
        out.append(hex_digit_str(d));
    }
    proof {
        assert(final(out)@ =~= old(out)@ + hex_digits_fixed(n as nat, width as nat));
    }
}

/// Name of the directory that groups one chain's artifacts.
pub open spec fn spec_chain_folder(chain: nat) -> Seq<char> {
    "chain-"@ + dec_digits(chain)
}

/// Name of the directory that groups one chain's artifacts; chains are
/// numbered from one in detection order.
pub fn chain_folder(chain: usize) -> (name: String)
    ensures
        name@ == spec_chain_folder(chain as nat),
{
    let mut name = String::new();
    name.append("chain-");
    push_dec_digits(chain as u64, &mut name);
    proof {
        assert(name@ =~= spec_chain_folder(chain as nat));
    }
    name
}

/// File name of a reportable page's artifact: the block id zero-padded to
/// six digits; the first page of a chain carries a `+start` mark, which
/// sorts ahead of any digit.
pub open spec fn spec_page_file_name(this_block_id: nat, first_in_chain: bool) -> Seq<char> {
    pad_zeros(dec_digits(this_block_id), 6) + if first_in_chain {
        "+start.csv"@
    } else {
        ".csv"@
    }
}

/// File name of a reportable page's artifact.
pub fn page_file_name(this_block_id: u32, first_in_chain: bool) -> (name: String)
    ensures
        name@ == spec_page_file_name(this_block_id as nat, first_in_chain),
{
    let mut digits = String::new();
    push_dec_digits(this_block_id as u64, &mut digits);
    let digit_count = digits.as_str().unicode_len();
    let mut name = String::new();
    let mut k: usize = digit_count;
    while k < 6
        invariant
            digit_count <= k <= 6 || (digit_count > 6 && k == digit_count),
            digits@ == dec_digits(this_block_id as nat),
            name@ =~= Seq::new((k - digit_count) as nat, |i: int| '0'),
        decreases 6 - k,
    {
        name.append("0");
        proof {
            reveal_strlit("0");
            assert(name@ =~= Seq::new((k + 1 - digit_count) as nat, |i: int| '0'));
        }
        k += 1;
    }
    name.append(digits.as_str());
    if first_in_chain {
        name.append("+start.csv");
    } else {
        name.append(".csv");
    }
    proof {
        assert(name@ =~= spec_page_file_name(this_block_id as nat, first_in_chain));
    }
    name
}

/// Path of an artifact relative to the destination directory: the chain's
/// folder, a separator, and the artifact's file name.
pub open spec fn spec_artifact_rel_path(chain: nat, file_name: Seq<char>) -> Seq<char> {
    spec_chain_folder(chain) + "/"@ + file_name
}

/// Joins a chain's folder and an artifact's file name into the artifact's
/// path relative to the destination directory.
pub fn artifact_rel_path(chain: usize, file_name: &str) -> (path: String)
    ensures
        path@ == spec_artifact_rel_path(chain as nat, file_name@),
{
    let mut path = chain_folder(chain);
    path.append("/");
    path.append(file_name);
    proof {
        assert(path@ =~= spec_artifact_rel_path(chain as nat, file_name@));
    }
    path
}

/// File name of a corrupted page's placeholder artifact: the page's position
/// in its chain and the payload CRC recorded in the header.
pub open spec fn spec_corrupted_file_name(index_in_chain: nat, data_crc32: nat) -> Seq<char> {
    dec_digits(index_in_chain) + "-corrupted-0x"@ + hex_digits_fixed(data_crc32, 8) + ".csv"@
}

/// File name of a corrupted page's placeholder artifact.
pub fn corrupted_file_name(index_in_chain: usize, data_crc32: u32) -> (name: String)
    ensures
        name@ == spec_corrupted_file_name(index_in_chain as nat, data_crc32 as nat),
{
    let mut name = String::new();
    push_dec_digits(index_in_chain as u64, &mut name);
    name.append("-corrupted-0x");
    push_hex_digits(data_crc32, 8, &mut name);
    name.append(".csv");
    proof {
        assert(name@ =~= spec_corrupted_file_name(index_in_chain as nat, data_crc32 as nat));
    }
    name
}

/// What a page becomes in the report: a full calibrated report, a corruption
/// placeholder, or nothing at all.
#[derive(Debug, Clone, Copy, PartialEq, Eq, Structural)]
pub enum PageClass {
    /// The page is consistent: reconstruct, calibrate and report it.
    Reportable,
    /// The page failed its CRC but carries real block ids: leave a
    /// placeholder artifact, then continue.
    Corrupted,
    /// The page failed its CRC and carries a sentinel id: there is no data
    /// behind it; it is skipped without an artifact.
    NoData,
}

/// Classification of a page from its consistency flag and its block ids: a
/// consistent page is reportable; an inconsistent one is a no-data sentinel
/// when either id is `u32::MAX`, and corrupted otherwise.
pub open spec fn spec_classify(consistent: bool, this_block_id: u32, prev_block_id: u32) -> PageClass {
    if consistent {
        PageClass::Reportable
    } else if this_block_id != u32::MAX && prev_block_id != u32::MAX {
        PageClass::Corrupted
    } else {
        PageClass::NoData
    }
}

impl Page {
    /// Classifies this page as reportable, corrupted or no-data.
    pub fn classify(&self) -> (c: PageClass)
        ensures
            c == spec_classify(self.consistent, self.this_block_id, self.prev_block_id),
    {
        if self.consistent {
            PageClass::Reportable
        } else if self.this_block_id != u32::MAX && self.prev_block_id != u32::MAX {
            PageClass::Corrupted
        } else {
            PageClass::NoData
        }
    }
}

/// The fixed payload of a corrupted page's placeholder artifact.
pub fn corrupted_marker() -> (s: &'static str)
    ensures
        s@ == "data corrupted"@,
{
    "data corrupted"
}

/// The report's first line, naming the page: a session-start page is marked
/// as such, any other page also names its predecessor.
pub open spec fn spec_page_identity_line(this_block_id: u32, prev_block_id: u32) -> Seq<char> {
    if spec_is_session_start(this_block_id, prev_block_id) {
        "Стартовая страница;"@ + dec_digits(this_block_id as nat) + "\n"@
    } else {
        "Страница "@ + dec_digits(this_block_id as nat) + ";предыдущая "@ + dec_digits(
            prev_block_id as nat,
        ) + "\n"@
    }
}

/// Builds the report's identity line for a page.
pub fn page_identity_line(this_block_id: u32, prev_block_id: u32) -> (line: String)
    ensures
        line@ == spec_page_identity_line(this_block_id, prev_block_id),
{
    let mut line = String::new();
    if this_block_id == 0 && prev_block_id == 0 {
        line.append("Стартовая страница;");
        push_dec_digits(this_block_id as u64, &mut line);
        line.append("\n");
    } else {
        line.append("Страница ");
        push_dec_digits(this_block_id as u64, &mut line);
        line.append(";предыдущая ");
        push_dec_digits(prev_block_id as u64, &mut line);
        line.append("\n");
    }
    proof {
        assert(line@ =~= spec_page_identity_line(this_block_id, prev_block_id));
    }
    line
}

/// The three opening lines of a reportable page's artifact: the identity
/// line, the page's start time and the base sampling interval.
/// `start_time_pretty` is the human-readable rendering of the page's start
/// time, supplied by the caller (its formatting is cosmetic and left to the
/// writing side).
pub open spec fn spec_report_prelude(page: Page, start_time_pretty: Seq<char>) -> Seq<char> {
    spec_page_identity_line(page.this_block_id, page.prev_block_id) + "Время начала страницы;"@
        + start_time_pretty + "\n"@ + "Базовый интервал;"@ + dec_digits(
        page.base_interval_ms as nat,
    ) + ";мс.\n"@
}

/// Builds the three opening lines of a reportable page's artifact.
pub fn report_prelude(page: &Page, start_time_pretty: &str) -> (text: String)
    ensures
        text@ == spec_report_prelude(*page, start_time_pretty@),
{
    let mut text = page_identity_line(page.this_block_id, page.prev_block_id);
    text.append("Время начала страницы;");
    text.append(start_time_pretty);
    text.append("\n");
    text.append("Базовый интервал;");
    push_dec_digits(page.base_interval_ms as u64, &mut text);
    text.append(";мс.\n");
    proof {
        assert(text@ =~= spec_report_prelude(*page, start_time_pretty@));
    }
    text
}

/// The column header row of the data table: time, pressure in the selected
/// unit, temperature, and — when raw frequencies are kept — the two raw
/// frequency columns.
pub open spec fn spec_column_header(unit: PressureMeassureUnits, save_freq: bool) -> Seq<char> {
    "Время;"@ + "Давление, "@ + unit.spec_label() + ";Температура, *С;"@ + if save_freq {
        "Частота давления, Гц;Частота температуры, Гц\n"@
    } else {
        "\n"@
    }
}

/// Builds the column header row of the data table.
pub fn column_header(unit: PressureMeassureUnits, save_freq: bool) -> (line: String)
    ensures
        line@ == spec_column_header(unit, save_freq),
{
    let mut line = String::new();
    line.append("Время;");
    line.append("Давление, ");
    line.append(unit.label());
    line.append(";Температура, *С;");
    if save_freq {
        line.append("Частота давления, Гц;Частота температуры, Гц\n");
    } else {
        line.append("\n");
    }
    proof {
        assert(line@ =~= spec_column_header(unit, save_freq));
    }
    line
}

/// The artifact one page contributes to the report set.
#[derive(Debug)]
pub enum ArtifactPlan {
    /// A consistent page: its reconstructed samples are calibrated and
    /// written under `file_name` in the chain's directory.
    Report { file_name: String, samples: Vec<Sample> },
    /// An inconsistent page with real block ids: `payload` is written
    /// unchanged under `file_name`.
    Corrupted { file_name: String, payload: String },
}

/// The artifact a page yields, with views in place of the executable types.
pub enum ArtifactSpec {
    Report { file_name: Seq<char>, samples: Seq<Sample> },
    Corrupted { file_name: Seq<char>, payload: Seq<char> },
}

impl ArtifactPlan {
    /// The plan, field by field, as sequences.
    pub open spec fn view_spec(&self) -> ArtifactSpec {
        match self {
            ArtifactPlan::Report { file_name, samples } => ArtifactSpec::Report {
                file_name: file_name@,
                samples: samples@,
            },
            ArtifactPlan::Corrupted { file_name, payload } => ArtifactSpec::Corrupted {
                file_name: file_name@,
                payload: payload@,
            },
        }
    }
}

/// What a page at position `index_in_chain` of its chain contributes to the
/// output: a reportable page yields a full report of its schedule, a
/// corrupted page yields the fixed marker under a name carrying its CRC, a
/// no-data page yields nothing.
pub open spec fn spec_page_artifact(page: Page, index_in_chain: nat) -> Option<ArtifactSpec> {
    match spec_classify(page.consistent, page.this_block_id, page.prev_block_id) {
        PageClass::Reportable => Some(
            ArtifactSpec::Report {
                file_name: spec_page_file_name(page.this_block_id as nat, index_in_chain == 0),
                samples: page_schedule(page),
            },
        ),
        PageClass::Corrupted => Some(
            ArtifactSpec::Corrupted {
                file_name: spec_corrupted_file_name(index_in_chain, page.data_crc32 as nat),
                payload: "data corrupted"@,
            },
        ),
        PageClass::NoData => None,
    }
}

/// Decides a page's artifact: a consistent page is reconstructed in full, an
/// inconsistent page with real ids becomes a corruption placeholder, a
/// sentinel page becomes nothing.
pub fn page_artifact(page: &Page, index_in_chain: usize) -> (r: Option<ArtifactPlan>)
    requires
        page.consistent ==> page.reconstructible(),
    ensures
        match r {
            Some(plan) => spec_page_artifact(*page, index_in_chain as nat) == Some(
                plan.view_spec(),
            ),
            None => spec_page_artifact(*page, index_in_chain as nat) is None,
        },
{
    if page.consistent {
        let file_name = page_file_name(page.this_block_id, index_in_chain == 0);
        let samples = reconstruct_samples(page);
        Some(ArtifactPlan::Report { file_name, samples })
    } else if page.this_block_id != u32::MAX && page.prev_block_id != u32::MAX {
        let file_name = corrupted_file_name(index_in_chain, page.data_crc32);
        let payload = String::from_str(corrupted_marker());
        Some(ArtifactPlan::Corrupted { file_name, payload })
    } else {
        None
    }
}

/// Idempotence of the decoding: the chain partition and every page's
/// artifact are pinned by their contracts to functions of the immutable
/// input alone, so any two runs over the same page list and profile settle
/// on identical chains and identical artifact plans.
pub proof fn lemma_decode_deterministic(
    pages: Seq<Page>,
    chains1: Seq<(usize, usize)>,
    chains2: Seq<(usize, usize)>,
    page: Page,
    index_in_chain: nat,
    artifact1: Option<ArtifactSpec>,
    artifact2: Option<ArtifactSpec>,
)
    requires
        chains1 == chain_bounds_spec(start_indices(pages), pages.len() as usize),
        chains2 == chain_bounds_spec(start_indices(pages), pages.len() as usize),
        artifact1 == spec_page_artifact(page, index_in_chain),
        artifact2 == spec_page_artifact(page, index_in_chain),
    ensures
        chains1 == chains2,
        artifact1 == artifact2,
{
}

} // verus!
