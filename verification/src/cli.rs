//! The command-line grammar of the harness: three subcommands, their flags
//! and defaults, and the journal flags that every subcommand shares.

use vstd::prelude::*;
use crate::capture::{CaptureJournalArgs, CapturePolicy};
use crate::commands::{
    EvennessRequest, RootAcquisitionMode, RootReport, RootValidation, RunRequest,
    SectorGapRequest,
};
use crate::lexical::{
    has_prefix, parse_number, parse_number_list, read_number, read_number_list, split_at_equals,
    split_commas, split_equals, starts_with,
};
use crate::research::ResearchCapture;
use crate::text::join;

verus! {

/// The subcommands.
#[derive(Clone, Copy, Debug, PartialEq, Eq, Structural)]
pub enum CommandKind {
    Run,
    CheckEvenness,
    SectorGap,
}

/// Every flag of the grammar.
#[derive(Clone, Copy, Debug, PartialEq, Eq, Structural)]
pub enum Flag {
    LambdaSq,
    NModes,
    Top,
    FirstRootIndex,
    PrecisionDigits,
    DisplayDigits,
    F64Only,
    NoForceEven,
    ResearchCapture,
    ResearchSectorEigenpairs,
    RootAcquisition,
    RootReport,
    MinimumMatchDigits,
    ReferenceZeroLimit,
    IncludeNegativeRoots,
    AllowRootOversubscription,
    RootValidation,
    RootEnclosureDigits,
    Eigenpairs,
    CapturePolicy,
    CaptureOutput,
    CapturePrefixCheckpoints,
    CaptureWorkingPrecisionBits,
    CaptureGridResolution,
    CaptureProfileSteps,
    CaptureReductionMaxDimension,
    RequireCompleteCapture,
}

/// What kind of value a flag takes.
#[derive(Clone, Copy, Debug, PartialEq, Eq, Structural)]
pub enum ValueKind {
    /// A decimal number no larger than the bound.
    Number(u64),
    Capture,
    Acquisition,
    Report,
    Validation,
    Policy,
    Text,
    /// Comma-separated numbers; the flag may be repeated.
    List,
    /// No value: the flag is either present or absent.
    Switch,
}

/// The spelling of a flag.
pub open spec fn spec_flag_name(f: Flag) -> Seq<char> {
    match f {
        Flag::LambdaSq => "--lambda-sq"@,
        Flag::NModes => "--n-modes"@,
        Flag::Top => "--top"@,
        Flag::FirstRootIndex => "--first-root-index"@,
        Flag::PrecisionDigits => "--precision-digits"@,
        Flag::DisplayDigits => "--display-digits"@,
        Flag::F64Only => "--f64-only"@,
        Flag::NoForceEven => "--no-force-even"@,
        Flag::ResearchCapture => "--research-capture"@,
        Flag::ResearchSectorEigenpairs => "--research-sector-eigenpairs"@,
        Flag::RootAcquisition => "--root-acquisition"@,
        Flag::RootReport => "--root-report"@,
        Flag::MinimumMatchDigits => "--minimum-match-digits"@,
        Flag::ReferenceZeroLimit => "--reference-zero-limit"@,
        Flag::IncludeNegativeRoots => "--include-negative-roots"@,
        Flag::AllowRootOversubscription => "--allow-root-oversubscription"@,
        Flag::RootValidation => "--root-validation"@,
        Flag::RootEnclosureDigits => "--root-enclosure-digits"@,
        Flag::Eigenpairs => "--eigenpairs"@,
        Flag::CapturePolicy => "--capture-policy"@,
        Flag::CaptureOutput => "--capture-output"@,
        Flag::CapturePrefixCheckpoints => "--capture-prefix-checkpoints"@,
        Flag::CaptureWorkingPrecisionBits => "--capture-working-precision-bits"@,
        Flag::CaptureGridResolution => "--capture-grid-resolution"@,
        Flag::CaptureProfileSteps => "--capture-profile-steps"@,
        Flag::CaptureReductionMaxDimension => "--capture-reduction-max-dimension"@,
        Flag::RequireCompleteCapture => "--require-complete-capture"@,
    }
}

/// The spelling of a flag.
pub fn flag_name(f: Flag) -> (s: String)
    ensures
        s@ == spec_flag_name(f),
{
    match f {
        Flag::LambdaSq => String::from_str("--lambda-sq"),
        Flag::NModes => String::from_str("--n-modes"),
        Flag::Top => String::from_str("--top"),
        Flag::FirstRootIndex => String::from_str("--first-root-index"),
        Flag::PrecisionDigits => String::from_str("--precision-digits"),
        Flag::DisplayDigits => String::from_str("--display-digits"),
        Flag::F64Only => String::from_str("--f64-only"),
        Flag::NoForceEven => String::from_str("--no-force-even"),
        Flag::ResearchCapture => String::from_str("--research-capture"),
        Flag::ResearchSectorEigenpairs => String::from_str("--research-sector-eigenpairs"),
        Flag::RootAcquisition => String::from_str("--root-acquisition"),
        Flag::RootReport => String::from_str("--root-report"),
        Flag::MinimumMatchDigits => String::from_str("--minimum-match-digits"),
        Flag::ReferenceZeroLimit => String::from_str("--reference-zero-limit"),
        Flag::IncludeNegativeRoots => String::from_str("--include-negative-roots"),
        Flag::AllowRootOversubscription => String::from_str("--allow-root-oversubscription"),
        Flag::RootValidation => String::from_str("--root-validation"),
        Flag::RootEnclosureDigits => String::from_str("--root-enclosure-digits"),
        Flag::Eigenpairs => String::from_str("--eigenpairs"),
        Flag::CapturePolicy => String::from_str("--capture-policy"),
        Flag::CaptureOutput => String::from_str("--capture-output"),
        Flag::CapturePrefixCheckpoints => String::from_str("--capture-prefix-checkpoints"),
        Flag::CaptureWorkingPrecisionBits => String::from_str("--capture-working-precision-bits"),
        Flag::CaptureGridResolution => String::from_str("--capture-grid-resolution"),
        Flag::CaptureProfileSteps => String::from_str("--capture-profile-steps"),
        Flag::CaptureReductionMaxDimension => String::from_str("--capture-reduction-max-dimension"),
        Flag::RequireCompleteCapture => String::from_str("--require-complete-capture"),
    }
}

/// The kind of value a flag takes.
pub open spec fn spec_value_kind(f: Flag) -> ValueKind {
    match f {
        Flag::LambdaSq => ValueKind::Number(u64::MAX),
        Flag::NModes => ValueKind::Number(usize::MAX as u64),
        Flag::Top => ValueKind::Number(usize::MAX as u64),
        Flag::FirstRootIndex => ValueKind::Number(usize::MAX as u64),
        Flag::PrecisionDigits => ValueKind::Number(u32::MAX as u64),
        Flag::DisplayDigits => ValueKind::Number(usize::MAX as u64),
        Flag::F64Only => ValueKind::Switch,
        Flag::NoForceEven => ValueKind::Switch,
        Flag::ResearchCapture => ValueKind::Capture,
        Flag::ResearchSectorEigenpairs => ValueKind::Number(usize::MAX as u64),
        Flag::RootAcquisition => ValueKind::Acquisition,
        Flag::RootReport => ValueKind::Report,
        Flag::MinimumMatchDigits => ValueKind::Number(u32::MAX as u64),
        Flag::ReferenceZeroLimit => ValueKind::Number(usize::MAX as u64),
        Flag::IncludeNegativeRoots => ValueKind::Switch,
        Flag::AllowRootOversubscription => ValueKind::Switch,
        Flag::RootValidation => ValueKind::Validation,
        Flag::RootEnclosureDigits => ValueKind::Number(u32::MAX as u64),
        Flag::Eigenpairs => ValueKind::Number(usize::MAX as u64),
        Flag::CapturePolicy => ValueKind::Policy,
        Flag::CaptureOutput => ValueKind::Text,
        Flag::CapturePrefixCheckpoints => ValueKind::List,
        Flag::CaptureWorkingPrecisionBits => ValueKind::Number(u32::MAX as u64),
        Flag::CaptureGridResolution => ValueKind::Number(usize::MAX as u64),
        Flag::CaptureProfileSteps => ValueKind::Number(usize::MAX as u64),
        Flag::CaptureReductionMaxDimension => ValueKind::Number(usize::MAX as u64),
        Flag::RequireCompleteCapture => ValueKind::Switch,
    }
}

/// The kind of value a flag takes.
pub fn value_kind(f: Flag) -> (k: ValueKind)
    ensures
        k == spec_value_kind(f),
{
    match f {
        Flag::LambdaSq => ValueKind::Number(u64::MAX),
        Flag::NModes => ValueKind::Number(usize::MAX as u64),
        Flag::Top => ValueKind::Number(usize::MAX as u64),
        Flag::FirstRootIndex => ValueKind::Number(usize::MAX as u64),
        Flag::PrecisionDigits => ValueKind::Number(u32::MAX as u64),
        Flag::DisplayDigits => ValueKind::Number(usize::MAX as u64),
        Flag::F64Only => ValueKind::Switch,
        Flag::NoForceEven => ValueKind::Switch,
        Flag::ResearchCapture => ValueKind::Capture,
        Flag::ResearchSectorEigenpairs => ValueKind::Number(usize::MAX as u64),
        Flag::RootAcquisition => ValueKind::Acquisition,
        Flag::RootReport => ValueKind::Report,
        Flag::MinimumMatchDigits => ValueKind::Number(u32::MAX as u64),
        Flag::ReferenceZeroLimit => ValueKind::Number(usize::MAX as u64),
        Flag::IncludeNegativeRoots => ValueKind::Switch,
        Flag::AllowRootOversubscription => ValueKind::Switch,
        Flag::RootValidation => ValueKind::Validation,
        Flag::RootEnclosureDigits => ValueKind::Number(u32::MAX as u64),
        Flag::Eigenpairs => ValueKind::Number(usize::MAX as u64),
        Flag::CapturePolicy => ValueKind::Policy,
        Flag::CaptureOutput => ValueKind::Text,
        Flag::CapturePrefixCheckpoints => ValueKind::List,
        Flag::CaptureWorkingPrecisionBits => ValueKind::Number(u32::MAX as u64),
        Flag::CaptureGridResolution => ValueKind::Number(usize::MAX as u64),
        Flag::CaptureProfileSteps => ValueKind::Number(usize::MAX as u64),
        Flag::CaptureReductionMaxDimension => ValueKind::Number(usize::MAX as u64),
        Flag::RequireCompleteCapture => ValueKind::Switch,
    }
}

/// Flags shared by every subcommand (accepted before the subcommand too).
pub open spec fn is_global(f: Flag) -> bool {
    f == Flag::CapturePolicy || f == Flag::CaptureOutput || f == Flag::CapturePrefixCheckpoints || f == Flag::CaptureWorkingPrecisionBits || f == Flag::CaptureGridResolution || f == Flag::CaptureProfileSteps || f == Flag::CaptureReductionMaxDimension || f == Flag::RequireCompleteCapture
}

/// The flags that a subcommand accepts, besides the shared ones.
pub open spec fn command_accepts(c: CommandKind, f: Flag) -> bool {
    match c {
        CommandKind::Run => f == Flag::LambdaSq || f == Flag::NModes || f == Flag::Top || f == Flag::FirstRootIndex || f == Flag::PrecisionDigits || f == Flag::DisplayDigits || f == Flag::F64Only || f == Flag::NoForceEven || f == Flag::ResearchCapture || f == Flag::ResearchSectorEigenpairs || f == Flag::RootAcquisition || f == Flag::RootReport || f == Flag::MinimumMatchDigits || f == Flag::ReferenceZeroLimit || f == Flag::IncludeNegativeRoots || f == Flag::AllowRootOversubscription || f == Flag::RootValidation || f == Flag::RootEnclosureDigits,
        CommandKind::CheckEvenness => f == Flag::LambdaSq || f == Flag::NModes || f == Flag::PrecisionDigits || f == Flag::DisplayDigits || f == Flag::ResearchCapture || f == Flag::ResearchSectorEigenpairs || f == Flag::RootAcquisition,
        CommandKind::SectorGap => f == Flag::LambdaSq || f == Flag::NModes || f == Flag::PrecisionDigits || f == Flag::Eigenpairs || f == Flag::DisplayDigits,
    }
}

/// The flag may appear at this point of the command line.
pub open spec fn accepts(cmd: Option<CommandKind>, f: Flag) -> bool {
    is_global(f) || (cmd matches Some(c) && command_accepts(c, f))
}

fn accepts_exec(cmd: Option<CommandKind>, f: Flag) -> (r: bool)
    ensures
        r == accepts(cmd, f),
{
    let global = f == Flag::CapturePolicy || f == Flag::CaptureOutput || f == Flag::CapturePrefixCheckpoints || f == Flag::CaptureWorkingPrecisionBits || f == Flag::CaptureGridResolution || f == Flag::CaptureProfileSteps || f == Flag::CaptureReductionMaxDimension || f == Flag::RequireCompleteCapture;
    if global {
        return true;
    }
    match cmd {
        None => false,
        Some(CommandKind::Run) => f == Flag::LambdaSq || f == Flag::NModes || f == Flag::Top || f == Flag::FirstRootIndex || f == Flag::PrecisionDigits || f == Flag::DisplayDigits || f == Flag::F64Only || f == Flag::NoForceEven || f == Flag::ResearchCapture || f == Flag::ResearchSectorEigenpairs || f == Flag::RootAcquisition || f == Flag::RootReport || f == Flag::MinimumMatchDigits || f == Flag::ReferenceZeroLimit || f == Flag::IncludeNegativeRoots || f == Flag::AllowRootOversubscription || f == Flag::RootValidation || f == Flag::RootEnclosureDigits,
        Some(CommandKind::CheckEvenness) => f == Flag::LambdaSq || f == Flag::NModes || f == Flag::PrecisionDigits || f == Flag::DisplayDigits || f == Flag::ResearchCapture || f == Flag::ResearchSectorEigenpairs || f == Flag::RootAcquisition,
        Some(CommandKind::SectorGap) => f == Flag::LambdaSq || f == Flag::NModes || f == Flag::PrecisionDigits || f == Flag::Eigenpairs || f == Flag::DisplayDigits,
    }
}

/// Every flag, in the order in which names are looked up.
pub open spec fn all_flags() -> Seq<Flag> {
    seq![Flag::LambdaSq, Flag::NModes, Flag::Top, Flag::FirstRootIndex, Flag::PrecisionDigits, Flag::DisplayDigits, Flag::F64Only, Flag::NoForceEven, Flag::ResearchCapture, Flag::ResearchSectorEigenpairs, Flag::RootAcquisition, Flag::RootReport, Flag::MinimumMatchDigits, Flag::ReferenceZeroLimit, Flag::IncludeNegativeRoots, Flag::AllowRootOversubscription, Flag::RootValidation, Flag::RootEnclosureDigits, Flag::Eigenpairs, Flag::CapturePolicy, Flag::CaptureOutput, Flag::CapturePrefixCheckpoints, Flag::CaptureWorkingPrecisionBits, Flag::CaptureGridResolution, Flag::CaptureProfileSteps, Flag::CaptureReductionMaxDimension, Flag::RequireCompleteCapture]
}

fn all_flags_exec() -> (v: Vec<Flag>)
    ensures
        v@ == all_flags(),
{
    let v: Vec<Flag> = vec![Flag::LambdaSq, Flag::NModes, Flag::Top, Flag::FirstRootIndex, Flag::PrecisionDigits, Flag::DisplayDigits, Flag::F64Only, Flag::NoForceEven, Flag::ResearchCapture, Flag::ResearchSectorEigenpairs, Flag::RootAcquisition, Flag::RootReport, Flag::MinimumMatchDigits, Flag::ReferenceZeroLimit, Flag::IncludeNegativeRoots, Flag::AllowRootOversubscription, Flag::RootValidation, Flag::RootEnclosureDigits, Flag::Eigenpairs, Flag::CapturePolicy, Flag::CaptureOutput, Flag::CapturePrefixCheckpoints, Flag::CaptureWorkingPrecisionBits, Flag::CaptureGridResolution, Flag::CaptureProfileSteps, Flag::CaptureReductionMaxDimension, Flag::RequireCompleteCapture];
    assert(v@ =~= all_flags());
    v
}

/// A flag's value as parsed.
#[derive(Clone, Debug)]
pub enum Setting {
    Number(u64),
    Capture(ResearchCapture),
    Acquisition(RootAcquisitionMode),
    Report(RootReport),
    Validation(RootValidation),
    Policy(CapturePolicy),
    Text(String),
    List(Vec<usize>),
    Switch,
}

/// A flag's value as the grammar describes it.
pub enum SettingModel {
    Number(nat),
    Capture(ResearchCapture),
    Acquisition(RootAcquisitionMode),
    Report(RootReport),
    Validation(RootValidation),
    Policy(CapturePolicy),
    Text(Seq<char>),
    List(Seq<nat>),
    Switch,
}

impl View for Setting {
    type V = SettingModel;

    open spec fn view(&self) -> SettingModel {
        match self {
            Setting::Number(n) => SettingModel::Number(*n as nat),
            Setting::Capture(c) => SettingModel::Capture(*c),
            Setting::Acquisition(a) => SettingModel::Acquisition(*a),
            Setting::Report(r) => SettingModel::Report(*r),
            Setting::Validation(v) => SettingModel::Validation(*v),
            Setting::Policy(p) => SettingModel::Policy(*p),
            Setting::Text(t) => SettingModel::Text(t@),
            Setting::List(v) => SettingModel::List(v@.map_values(|x: usize| x as nat)),
            Setting::Switch => SettingModel::Switch,
        }
    }
}

/// The value named by `v` for a flag of kind `k`, if it is one.
pub open spec fn interpret(k: ValueKind, v: Seq<char>) -> Option<SettingModel> {
    match k {
        ValueKind::Number(max) => match parse_number(v, max as nat) {
            Some(n) => Some(SettingModel::Number(n)),
            None => None,
        },
        ValueKind::Capture => if v == "claim"@ {
            Some(SettingModel::Capture(ResearchCapture::Claim))
        } else if v == "research"@ {
            Some(SettingModel::Capture(ResearchCapture::Research))
        } else if v == "gap"@ {
            Some(SettingModel::Capture(ResearchCapture::Gap))
        } else if v == "maximum"@ {
            Some(SettingModel::Capture(ResearchCapture::Maximum))
        } else if v == "ultra"@ {
            Some(SettingModel::Capture(ResearchCapture::Ultra))
        } else {
            None
        },
        ValueKind::Acquisition => if v == "seeded"@ {
            Some(SettingModel::Acquisition(RootAcquisitionMode::Seeded))
        } else if v == "independent"@ {
            Some(SettingModel::Acquisition(RootAcquisitionMode::Independent))
        } else {
            None
        },
        ValueKind::Report => if v == "reference"@ {
            Some(SettingModel::Report(RootReport::Reference))
        } else if v == "discovery-ordering"@ {
            Some(SettingModel::Report(RootReport::DiscoveryOrdering))
        } else {
            None
        },
        ValueKind::Validation => if v == "off"@ {
            Some(SettingModel::Validation(RootValidation::Off))
        } else if v == "certified"@ {
            Some(SettingModel::Validation(RootValidation::Certified))
        } else {
            None
        },
        ValueKind::Policy => if v == "full"@ {
            Some(SettingModel::Policy(CapturePolicy::Full))
        } else if v == "claim1c-hp1000"@ {
            Some(SettingModel::Policy(CapturePolicy::Claim1cHp1000))
        } else if v == "claim8-natural"@ {
            Some(SettingModel::Policy(CapturePolicy::Claim8Natural))
        } else {
            None
        },
        ValueKind::Text => Some(SettingModel::Text(v)),
        ValueKind::List => match parse_number_list(split_commas(v), usize::MAX as nat) {
            Some(values) => Some(SettingModel::List(values)),
            None => None,
        },
        ValueKind::Switch => None,
    }
}

/// Each capture level is named by exactly one value of `--research-capture`,
/// its own name: `claim`, `research`, `gap`, `maximum` or `ultra`; every
/// other value is refused. Likewise for the names of the root acquisition
/// modes, root reports, root validations and capture policies.
pub proof fn lemma_value_names(v: Seq<char>)
    ensures
        spec_value_kind(Flag::ResearchCapture) == ValueKind::Capture,
        (interpret(ValueKind::Capture, v) == Some(SettingModel::Capture(ResearchCapture::Claim)))
            == (v == "claim"@),
        (interpret(ValueKind::Capture, v) == Some(SettingModel::Capture(ResearchCapture::Research)))
            == (v == "research"@),
        (interpret(ValueKind::Capture, v) == Some(SettingModel::Capture(ResearchCapture::Gap)))
            == (v == "gap"@),
        (interpret(ValueKind::Capture, v) == Some(SettingModel::Capture(ResearchCapture::Maximum)))
            == (v == "maximum"@),
        (interpret(ValueKind::Capture, v) == Some(SettingModel::Capture(ResearchCapture::Ultra)))
            == (v == "ultra"@),
        interpret(ValueKind::Capture, v) is None == (v != "claim"@ && v != "research"@ && v
            != "gap"@ && v != "maximum"@ && v != "ultra"@),
        spec_value_kind(Flag::RootAcquisition) == ValueKind::Acquisition,
        (interpret(ValueKind::Acquisition, v) == Some(
            SettingModel::Acquisition(RootAcquisitionMode::Seeded),
        )) == (v == "seeded"@),
        (interpret(ValueKind::Acquisition, v) == Some(
            SettingModel::Acquisition(RootAcquisitionMode::Independent),
        )) == (v == "independent"@),
        interpret(ValueKind::Acquisition, v) is None == (v != "seeded"@ && v != "independent"@),
        spec_value_kind(Flag::RootReport) == ValueKind::Report,
        (interpret(ValueKind::Report, v) == Some(SettingModel::Report(RootReport::Reference))) == (v
            == "reference"@),
        (interpret(ValueKind::Report, v) == Some(
            SettingModel::Report(RootReport::DiscoveryOrdering),
        )) == (v == "discovery-ordering"@),
        interpret(ValueKind::Report, v) is None == (v != "reference"@ && v
            != "discovery-ordering"@),
        spec_value_kind(Flag::RootValidation) == ValueKind::Validation,
        (interpret(ValueKind::Validation, v) == Some(SettingModel::Validation(RootValidation::Off)))
            == (v == "off"@),
        (interpret(ValueKind::Validation, v) == Some(
            SettingModel::Validation(RootValidation::Certified),
        )) == (v == "certified"@),
        interpret(ValueKind::Validation, v) is None == (v != "off"@ && v != "certified"@),
        spec_value_kind(Flag::CapturePolicy) == ValueKind::Policy,
        (interpret(ValueKind::Policy, v) == Some(SettingModel::Policy(CapturePolicy::Full))) == (v
            == "full"@),
        (interpret(ValueKind::Policy, v) == Some(SettingModel::Policy(CapturePolicy::Claim1cHp1000)))
            == (v == "claim1c-hp1000"@),
        (interpret(ValueKind::Policy, v) == Some(SettingModel::Policy(CapturePolicy::Claim8Natural)))
            == (v == "claim8-natural"@),
        interpret(ValueKind::Policy, v) is None == (v != "full"@ && v != "claim1c-hp1000"@ && v
            != "claim8-natural"@),
{
    reveal_strlit("claim");
    reveal_strlit("research");
    reveal_strlit("gap");
    reveal_strlit("maximum");
    reveal_strlit("ultra");
    reveal_strlit("seeded");
    reveal_strlit("independent");
    reveal_strlit("reference");
    reveal_strlit("discovery-ordering");
    reveal_strlit("off");
    reveal_strlit("certified");
    reveal_strlit("full");
    reveal_strlit("claim1c-hp1000");
    reveal_strlit("claim8-natural");
    assert("claim"@ != "research"@ && "claim"@ != "gap"@ && "claim"@ != "maximum"@ && "claim"@
        != "ultra"@) by {
        assert("claim"@.len() != "research"@.len());
        assert("claim"@.len() != "gap"@.len());
        assert("claim"@.len() != "maximum"@.len());
        assert("claim"@[0] != "ultra"@[0]);
    }
    assert("research"@ != "gap"@ && "research"@ != "maximum"@ && "research"@ != "ultra"@) by {
        assert("research"@.len() != "gap"@.len());
        assert("research"@.len() != "maximum"@.len());
        assert("research"@.len() != "ultra"@.len());
    }
    assert("gap"@ != "maximum"@ && "gap"@ != "ultra"@) by {
        assert("gap"@.len() != "maximum"@.len());
        assert("gap"@.len() != "ultra"@.len());
    }
    assert("maximum"@ != "ultra"@) by {
        assert("maximum"@.len() != "ultra"@.len());
    }
    assert("seeded"@ != "independent"@) by {
        assert("seeded"@.len() != "independent"@.len());
    }
    assert("reference"@ != "discovery-ordering"@) by {
        assert("reference"@.len() != "discovery-ordering"@.len());
    }
    assert("off"@ != "certified"@) by {
        assert("off"@.len() != "certified"@.len());
    }
    assert("full"@ != "claim1c-hp1000"@ && "full"@ != "claim8-natural"@
        && "claim1c-hp1000"@ != "claim8-natural"@) by {
        assert("full"@.len() != "claim1c-hp1000"@.len());
        assert("full"@.len() != "claim8-natural"@.len());
        assert("claim1c-hp1000"@[5] != "claim8-natural"@[5]);
    }
}

fn is_text(a: &str, b: &str) -> (r: bool)
    ensures
        r == (a@ == b@),
{
    String::from_str(a) == String::from_str(b)
}

/// Reads the value `v` of a flag of kind `k`.
fn interpret_exec(k: ValueKind, v: &str) -> (r: Option<Setting>)
    ensures
        match interpret(k, v@) {
            Some(m) => r matches Some(x) && x@ == m,
            None => r is None,
        },
{
    match k {
        ValueKind::Number(max) => match read_number(v, max) {
            Some(n) => Some(Setting::Number(n)),
            None => None,
        },
        ValueKind::Capture => if is_text(v, "claim") {
            Some(Setting::Capture(ResearchCapture::Claim))
        } else if is_text(v, "research") {
            Some(Setting::Capture(ResearchCapture::Research))
        } else if is_text(v, "gap") {
            Some(Setting::Capture(ResearchCapture::Gap))
        } else if is_text(v, "maximum") {
            Some(Setting::Capture(ResearchCapture::Maximum))
        } else if is_text(v, "ultra") {
            Some(Setting::Capture(ResearchCapture::Ultra))
        } else {
            None
        },
        ValueKind::Acquisition => if is_text(v, "seeded") {
            Some(Setting::Acquisition(RootAcquisitionMode::Seeded))
        } else if is_text(v, "independent") {
            Some(Setting::Acquisition(RootAcquisitionMode::Independent))
        } else {
            None
        },
        ValueKind::Report => if is_text(v, "reference") {
            Some(Setting::Report(RootReport::Reference))
        } else if is_text(v, "discovery-ordering") {
            Some(Setting::Report(RootReport::DiscoveryOrdering))
        } else {
            None
        },
        ValueKind::Validation => if is_text(v, "off") {
            Some(Setting::Validation(RootValidation::Off))
        } else if is_text(v, "certified") {
            Some(Setting::Validation(RootValidation::Certified))
        } else {
            None
        },
        ValueKind::Policy => if is_text(v, "full") {
            Some(Setting::Policy(CapturePolicy::Full))
        } else if is_text(v, "claim1c-hp1000") {
            Some(Setting::Policy(CapturePolicy::Claim1cHp1000))
        } else if is_text(v, "claim8-natural") {
            Some(Setting::Policy(CapturePolicy::Claim8Natural))
        } else {
            None
        },
        ValueKind::Text => Some(Setting::Text(String::from_str(v))),
        ValueKind::List => match read_number_list(v) {
            Some(values) => {
                let ghost spec_values = parse_number_list(split_commas(v@), usize::MAX as nat)->0;
                proof {
                    assert(values@.map_values(|x: usize| x as nat) =~= spec_values);
                }
                Some(Setting::List(values))
            },
            None => None,
        },
        ValueKind::Switch => None,
    }
}

/// Why a command line was not accepted.
#[derive(Clone, Debug)]
pub enum CliError {
    /// `--help` was given; the usage text is shown instead of running.
    DisplayHelp,
    /// `--version` was given before a subcommand.
    DisplayVersion,
    /// No subcommand was given.
    MissingSubcommand,
    /// The first positional argument is not a subcommand.
    UnrecognizedSubcommand { name: String },
    /// An argument that nothing accepts at this point.
    UnexpectedArgument { argument: String },
    /// A flag that needs a value was given none.
    MissingValue { flag: Flag },
    /// A switch was given a value.
    UnexpectedValue { flag: Flag },
    /// A flag's value is not one it accepts.
    InvalidValue { flag: Flag, value: String },
    /// A flag that takes one value was given twice.
    ArgumentRepeated { flag: Flag },
}

/// The grammar's description of a rejection.
pub enum CliErrorModel {
    DisplayHelp,
    DisplayVersion,
    MissingSubcommand,
    UnrecognizedSubcommand(Seq<char>),
    UnexpectedArgument(Seq<char>),
    MissingValue(Flag),
    UnexpectedValue(Flag),
    InvalidValue(Flag, Seq<char>),
    ArgumentRepeated(Flag),
}

impl View for CliError {
    type V = CliErrorModel;

    open spec fn view(&self) -> CliErrorModel {
        match self {
            CliError::DisplayHelp => CliErrorModel::DisplayHelp,
            CliError::DisplayVersion => CliErrorModel::DisplayVersion,
            CliError::MissingSubcommand => CliErrorModel::MissingSubcommand,
            CliError::UnrecognizedSubcommand { name } => CliErrorModel::UnrecognizedSubcommand(name@),
            CliError::UnexpectedArgument { argument } => CliErrorModel::UnexpectedArgument(argument@),
            CliError::MissingValue { flag } => CliErrorModel::MissingValue(*flag),
            CliError::UnexpectedValue { flag } => CliErrorModel::UnexpectedValue(*flag),
            CliError::InvalidValue { flag, value } => CliErrorModel::InvalidValue(*flag, value@),
            CliError::ArgumentRepeated { flag } => CliErrorModel::ArgumentRepeated(*flag),
        }
    }
}

/// The settings in the grammar's terms.
pub open spec fn settings_view(v: Seq<(Flag, Setting)>) -> Seq<(Flag, SettingModel)> {
    Seq::new(v.len(), |i: int| (v[i].0, v[i].1@))
}

/// Some setting is for flag `f`.
pub open spec fn has_setting(s: Seq<(Flag, SettingModel)>, f: Flag) -> bool {
    exists|k: int| 0 <= k < s.len() && (#[trigger] s[k]).0 == f
}

/// The first flag of `list` that is accepted here and spelled `name`.
pub open spec fn find_flag(list: Seq<Flag>, cmd: Option<CommandKind>, name: Seq<char>) -> Option<
    Flag,
>
    decreases list.len(),
{
    if list.len() == 0 {
        None
    } else if accepts(cmd, list[0]) && spec_flag_name(list[0]) == name {
        Some(list[0])
    } else {
        find_flag(list.skip(1), cmd, name)
    }
}

/// The subcommand spelled `t`.
pub open spec fn subcommand(t: Seq<char>) -> Option<CommandKind> {
    if t == "run"@ {
        Some(CommandKind::Run)
    } else if t == "check-evenness"@ {
        Some(CommandKind::CheckEvenness)
    } else if t == "sector-gap"@ {
        Some(CommandKind::SectorGap)
    } else {
        None
    }
}

/// Reading the token at `i`: the index of the next unread token, the
/// subcommand and the settings so far, or the rejection.
pub open spec fn step(
    tokens: Seq<Seq<char>>,
    i: int,
    cmd: Option<CommandKind>,
    settings: Seq<(Flag, SettingModel)>,
) -> Result<(int, Option<CommandKind>, Seq<(Flag, SettingModel)>), CliErrorModel> {
    let t = tokens[i];
    if t == "--help"@ || t == "-h"@ {
        Err(CliErrorModel::DisplayHelp)
    } else if cmd is None && (t == "--version"@ || t == "-V"@) {
        Err(CliErrorModel::DisplayVersion)
    } else if starts_with(t, "--"@) {
        let (name, inline) = split_equals(t);
        match find_flag(all_flags(), cmd, name) {
            None => Err(CliErrorModel::UnexpectedArgument(t)),
            Some(f) => if spec_value_kind(f) == ValueKind::Switch {
                if inline is Some {
                    Err(CliErrorModel::UnexpectedValue(f))
                } else if has_setting(settings, f) {
                    Err(CliErrorModel::ArgumentRepeated(f))
                } else {
                    Ok((i + 1, cmd, settings.push((f, SettingModel::Switch))))
                }
            } else {
                let (value, next) = match inline {
                    Some(v) => (Some(v), i + 1),
                    None => if i + 1 < tokens.len() && !starts_with(tokens[i + 1], "-"@) {
                        (Some(tokens[i + 1]), i + 2)
                    } else {
                        (None, i + 1)
                    },
                };
                match value {
                    None => Err(CliErrorModel::MissingValue(f)),
                    Some(v) => if spec_value_kind(f) != ValueKind::List && has_setting(settings, f) {
                        Err(CliErrorModel::ArgumentRepeated(f))
                    } else {
                        match interpret(spec_value_kind(f), v) {
                            None => Err(CliErrorModel::InvalidValue(f, v)),
                            Some(m) => Ok((next, cmd, settings.push((f, m)))),
                        }
                    },
                }
            }
        }
    } else if starts_with(t, "-"@) {
        Err(CliErrorModel::UnexpectedArgument(t))
    } else if cmd is None {
        match subcommand(t) {
            Some(c) => Ok((i + 1, Some(c), settings)),
            None => Err(CliErrorModel::UnrecognizedSubcommand(t)),
        }
    } else {
        Err(CliErrorModel::UnexpectedArgument(t))
    }
}

/// Reading the command line from token `i` on.
pub open spec fn parse_from(
    tokens: Seq<Seq<char>>,
    i: int,
    cmd: Option<CommandKind>,
    settings: Seq<(Flag, SettingModel)>,
) -> Result<(CommandKind, Seq<(Flag, SettingModel)>), CliErrorModel>
    decreases tokens.len() - i,
{
    if i < 0 || i >= tokens.len() {
        match cmd {
            None => Err(CliErrorModel::MissingSubcommand),
            Some(c) => Ok((c, settings)),
        }
    } else {
        match step(tokens, i, cmd, settings) {
            Err(e) => Err(e),
            Ok((next, cmd2, settings2)) => if next > i {
                parse_from(tokens, next, cmd2, settings2)
            } else {
                Err(CliErrorModel::MissingSubcommand)
            },
        }
    }
}

/// The subcommand and the flag settings of a command line whose first token
/// names the program.
pub open spec fn spec_parse(tokens: Seq<Seq<char>>) -> Result<
    (CommandKind, Seq<(Flag, SettingModel)>),
    CliErrorModel,
> {
    parse_from(tokens, 1, None, Seq::empty())
}

/// Every setting has the kind its flag takes.
pub open spec fn well_kinded(s: Seq<(Flag, SettingModel)>) -> bool {
    forall|k: int|
        0 <= k < s.len() ==> match (#[trigger] s[k]).1 {
            SettingModel::Number(n) => spec_value_kind(s[k].0) matches ValueKind::Number(max) && n
                <= max,
            SettingModel::Capture(_) => spec_value_kind(s[k].0) == ValueKind::Capture,
            SettingModel::Acquisition(_) => spec_value_kind(s[k].0) == ValueKind::Acquisition,
            SettingModel::Report(_) => spec_value_kind(s[k].0) == ValueKind::Report,
            SettingModel::Validation(_) => spec_value_kind(s[k].0) == ValueKind::Validation,
            SettingModel::Policy(_) => spec_value_kind(s[k].0) == ValueKind::Policy,
            SettingModel::Text(_) => spec_value_kind(s[k].0) == ValueKind::Text,
            SettingModel::List(_) => spec_value_kind(s[k].0) == ValueKind::List,
            SettingModel::Switch => spec_value_kind(s[k].0) == ValueKind::Switch,
        }
}

/// The tokens of a command line in the grammar's terms.
pub open spec fn tokens_view(args: Seq<&str>) -> Seq<Seq<char>> {
    Seq::new(args.len(), |i: int| args[i]@)
}

fn find_flag_exec(cmd: Option<CommandKind>, name: &String) -> (r: Option<Flag>)
    ensures
        r == find_flag(all_flags(), cmd, name@),
{
    let list = all_flags_exec();
    let mut k: usize = 0;
    proof {
        assert(all_flags().skip(0) =~= all_flags());
    }
    while k < list.len()
        invariant
            list@ == all_flags(),
            k <= list@.len(),
            find_flag(all_flags(), cmd, name@) == find_flag(all_flags().skip(k as int), cmd, name@),
        decreases list@.len() - k,
    {
        let f = list[k];
        let ghost rest = all_flags().skip(k as int);
        proof {
            assert(rest[0] == f);
            assert(rest.skip(1) =~= all_flags().skip(k + 1));
        }
        if accepts_exec(cmd, f) && flag_name(f) == *name {
            return Some(f);
        }
        k = k + 1;
    }
    None
}

fn has_setting_exec(settings: &Vec<(Flag, Setting)>, f: Flag) -> (r: bool)
    ensures
        r == has_setting(settings_view(settings@), f),
{
    let mut k: usize = 0;
    while k < settings.len()
        invariant
            k <= settings@.len(),
            forall|j: int| 0 <= j < k ==> settings@[j].0 != f,
        decreases settings@.len() - k,
    {
        if settings[k].0 == f {
            assert(settings_view(settings@)[k as int].0 == f);
            return true;
        }
        k = k + 1;
    }
    proof {
        if has_setting(settings_view(settings@), f) {
            let j = choose|j: int|
                0 <= j < settings_view(settings@).len() && (#[trigger] settings_view(settings@)[j]).0
                    == f;
            assert(settings@[j].0 == f);
        }
    }
    false
}

fn subcommand_exec(t: &str) -> (r: Option<CommandKind>)
    ensures
        r == subcommand(t@),
{
    if is_text(t, "run") {
        Some(CommandKind::Run)
    } else if is_text(t, "check-evenness") {
        Some(CommandKind::CheckEvenness)
    } else if is_text(t, "sector-gap") {
        Some(CommandKind::SectorGap)
    } else {
        None
    }
}

/// Reads a command line whose first token names the program: the
/// subcommand and every flag setting in order.
pub fn parse_command_line(args: &[&str]) -> (r: Result<(CommandKind, Vec<(Flag, Setting)>), CliError>)
    ensures
        match spec_parse(tokens_view(args@)) {
            Ok((c, s)) => r matches Ok((c2, v)) && c2 == c && settings_view(v@) == s && well_kinded(s),
            Err(e) => r matches Err(x) && x@ == e,
        },
{
    let ghost tokens = tokens_view(args@);
    let len = args.len();
    let mut i: usize = 1;
    let mut cmd: Option<CommandKind> = None;
    let mut settings: Vec<(Flag, Setting)> = Vec::new();
    proof {
        assert(settings_view(settings@) =~= Seq::<(Flag, SettingModel)>::empty());
    }
    while i < len
        invariant
            len == args@.len(),
            tokens == tokens_view(args@),
            1 <= i,
            spec_parse(tokens) == parse_from(tokens, i as int, cmd, settings_view(settings@)),
            well_kinded(settings_view(settings@)),
        decreases len - i,
    {
        let t: &str = args[i];
        let ghost before = settings_view(settings@);
        proof {
            assert(tokens[i as int] == t@);
        }
        if is_text(t, "--help") || is_text(t, "-h") {
            return Err(CliError::DisplayHelp);
        }
        if cmd.is_none() && (is_text(t, "--version") || is_text(t, "-V")) {
            return Err(CliError::DisplayVersion);
        }
        if has_prefix(t, "--") {
            let (name, inline) = split_at_equals(t);
            let f = match find_flag_exec(cmd, &name) {
                None => {
                    return Err(CliError::UnexpectedArgument { argument: String::from_str(t) });
                },
                Some(f) => f,
            };
            let kind = value_kind(f);
            if kind == ValueKind::Switch {
                if inline.is_some() {
                    return Err(CliError::UnexpectedValue { flag: f });
                }
                if has_setting_exec(&settings, f) {
                    return Err(CliError::ArgumentRepeated { flag: f });
                }
                settings.push((f, Setting::Switch));
                proof {
                    assert(settings_view(settings@) =~= before.push((f, SettingModel::Switch)));
                }
                i = i + 1;
            } else {
                let mut next: usize = i + 1;
                let value: Option<String> = match inline {
                    Some(v) => Some(v),
                    None => {
                        if i + 1 < len && !has_prefix(args[i + 1], "-") {
                            proof {
                                assert(tokens[i + 1] == args@[i + 1]@);
                            }
                            next = i + 2;
                            Some(String::from_str(args[i + 1]))
                        } else {
                            None
                        }
                    },
                };
                let v = match value {
                    None => {
                        return Err(CliError::MissingValue { flag: f });
                    },
                    Some(v) => v,
                };
                if kind != ValueKind::List && has_setting_exec(&settings, f) {
                    return Err(CliError::ArgumentRepeated { flag: f });
                }
                let setting = match interpret_exec(kind, v.as_str()) {
                    None => {
                        return Err(CliError::InvalidValue { flag: f, value: v });
                    },
                    Some(x) => x,
                };
                let ghost m = setting@;
                settings.push((f, setting));
                proof {
                    assert(settings_view(settings@) =~= before.push((f, m)));
                    let after = settings_view(settings@);
                    assert forall|k: int| 0 <= k < after.len() implies match (#[trigger] after[k]).1 {
                        SettingModel::Number(n) => spec_value_kind(after[k].0) matches ValueKind::Number(
                            max,
                        ) && n <= max,
                        SettingModel::Capture(_) => spec_value_kind(after[k].0) == ValueKind::Capture,
                        SettingModel::Acquisition(_) => spec_value_kind(after[k].0)
                            == ValueKind::Acquisition,
                        SettingModel::Report(_) => spec_value_kind(after[k].0) == ValueKind::Report,
                        SettingModel::Validation(_) => spec_value_kind(after[k].0)
                            == ValueKind::Validation,
                        SettingModel::Policy(_) => spec_value_kind(after[k].0) == ValueKind::Policy,
                        SettingModel::Text(_) => spec_value_kind(after[k].0) == ValueKind::Text,
                        SettingModel::List(_) => spec_value_kind(after[k].0) == ValueKind::List,
                        SettingModel::Switch => spec_value_kind(after[k].0) == ValueKind::Switch,
                    } by {
                        if k < before.len() {
                            assert(after[k] == before[k]);
                        }
                    }
                }
                i = next;
            }
        } else if has_prefix(t, "-") {
            return Err(CliError::UnexpectedArgument { argument: String::from_str(t) });
        } else if cmd.is_none() {
            match subcommand_exec(t) {
                Some(c) => {
                    cmd = Some(c);
                    i = i + 1;
                },
                None => {
                    return Err(CliError::UnrecognizedSubcommand { name: String::from_str(t) });
                },
            }
        } else {
            return Err(CliError::UnexpectedArgument { argument: String::from_str(t) });
        }
    }
    match cmd {
        None => Err(CliError::MissingSubcommand),
        Some(c) => Ok((c, settings)),
    }
}

/// The last setting of flag `f`.
pub open spec fn find_setting(s: Seq<(Flag, SettingModel)>, f: Flag) -> Option<SettingModel>
    decreases s.len(),
{
    if s.len() == 0 {
        None
    } else if s.last().0 == f {
        Some(s.last().1)
    } else {
        find_setting(s.drop_last(), f)
    }
}

/// The number given for `f`, or `default`.
pub open spec fn number_or(s: Seq<(Flag, SettingModel)>, f: Flag, default: nat) -> nat {
    match find_setting(s, f) {
        Some(SettingModel::Number(n)) => n,
        _ => default,
    }
}

/// The number given for `f`, if any.
pub open spec fn optional_number(s: Seq<(Flag, SettingModel)>, f: Flag) -> Option<nat> {
    match find_setting(s, f) {
        Some(SettingModel::Number(n)) => Some(n),
        _ => None,
    }
}

/// Whether the switch `f` was given.
pub open spec fn switch_on(s: Seq<(Flag, SettingModel)>, f: Flag) -> bool {
    find_setting(s, f) is Some
}

/// The capture level given for `f`, or `default`.
pub open spec fn capture_or(s: Seq<(Flag, SettingModel)>, f: Flag, default: ResearchCapture) -> ResearchCapture {
    match find_setting(s, f) {
        Some(SettingModel::Capture(c)) => c,
        _ => default,
    }
}

/// The root acquisition given for `f`, or seeded refinement.
pub open spec fn acquisition_or_seeded(s: Seq<(Flag, SettingModel)>) -> RootAcquisitionMode {
    match find_setting(s, Flag::RootAcquisition) {
        Some(SettingModel::Acquisition(a)) => a,
        _ => RootAcquisitionMode::Seeded,
    }
}

/// The root report layout given, or the reference layout.
pub open spec fn report_or_reference(s: Seq<(Flag, SettingModel)>) -> RootReport {
    match find_setting(s, Flag::RootReport) {
        Some(SettingModel::Report(r)) => r,
        _ => RootReport::Reference,
    }
}

/// The root validation given, or none.
pub open spec fn validation_or_off(s: Seq<(Flag, SettingModel)>) -> RootValidation {
    match find_setting(s, Flag::RootValidation) {
        Some(SettingModel::Validation(v)) => v,
        _ => RootValidation::Off,
    }
}

/// The capture policy given, or the full policy.
pub open spec fn policy_or_full(s: Seq<(Flag, SettingModel)>) -> CapturePolicy {
    match find_setting(s, Flag::CapturePolicy) {
        Some(SettingModel::Policy(p)) => p,
        _ => CapturePolicy::Full,
    }
}

/// The journal directory given, or the default one.
pub open spec fn output_or_default(s: Seq<(Flag, SettingModel)>) -> Seq<char> {
    match find_setting(s, Flag::CaptureOutput) {
        Some(SettingModel::Text(t)) => t,
        _ => ".xcelerator-cache/claim-runs"@,
    }
}

/// Every number listed for the checkpoint flag, over all its occurrences.
pub open spec fn listed_checkpoints(s: Seq<(Flag, SettingModel)>) -> Seq<nat>
    decreases s.len(),
{
    if s.len() == 0 {
        Seq::empty()
    } else {
        let rest = listed_checkpoints(s.drop_last());
        match s.last() {
            (Flag::CapturePrefixCheckpoints, SettingModel::List(v)) => rest + v,
            _ => rest,
        }
    }
}

/// A command line's subcommand request.
#[derive(Clone, Debug)]
pub enum Command {
    Run(RunRequest),
    CheckEvenness(EvennessRequest),
    SectorGap(SectorGapRequest),
}

/// A parsed command line.
#[derive(Clone, Debug)]
pub struct Cli {
    pub command: Command,
    pub capture_journal: CaptureJournalArgs,
}

/// The journal flags of a command line, with their defaults.
pub open spec fn journal_describes(j: CaptureJournalArgs, s: Seq<(Flag, SettingModel)>) -> bool {
    &&& j.capture_policy == policy_or_full(s)
    &&& j.capture_output@ == output_or_default(s)
    &&& j.capture_prefix_checkpoints@.map_values(|x: usize| x as nat) == listed_checkpoints(s)
    &&& j.capture_working_precision_bits == (match optional_number(s, Flag::CaptureWorkingPrecisionBits) {
        Some(n) => Some(n as u32),
        None => None,
    })
    &&& j.capture_grid_resolution == (match optional_number(s, Flag::CaptureGridResolution) {
        Some(n) => Some(n as usize),
        None => None,
    })
    &&& j.capture_profile_steps == (match optional_number(s, Flag::CaptureProfileSteps) {
        Some(n) => Some(n as usize),
        None => None,
    })
    &&& j.capture_reduction_max_dimension == number_or(s, Flag::CaptureReductionMaxDimension, 8193)
    &&& j.require_complete_capture == switch_on(s, Flag::RequireCompleteCapture)
}

/// The `run` flags of a command line, with their defaults.
pub open spec fn run_describes(r: RunRequest, s: Seq<(Flag, SettingModel)>) -> bool {
    &&& r.lambda_sq == number_or(s, Flag::LambdaSq, 13)
    &&& r.n_modes == number_or(s, Flag::NModes, 120)
    &&& r.top == number_or(s, Flag::Top, 20)
    &&& r.first_root_index == number_or(s, Flag::FirstRootIndex, 1)
    &&& r.precision_digits == number_or(s, Flag::PrecisionDigits, 200)
    &&& r.display_digits == number_or(s, Flag::DisplayDigits, 16)
    &&& r.f64_only == switch_on(s, Flag::F64Only)
    &&& r.no_force_even == switch_on(s, Flag::NoForceEven)
    &&& r.research_capture == capture_or(s, Flag::ResearchCapture, ResearchCapture::Claim)
    &&& r.research_sector_eigenpairs == number_or(s, Flag::ResearchSectorEigenpairs, 8)
    &&& r.root_acquisition == acquisition_or_seeded(s)
    &&& r.root_report == report_or_reference(s)
    &&& r.minimum_match_digits == number_or(s, Flag::MinimumMatchDigits, 10)
    &&& r.reference_zero_limit == number_or(s, Flag::ReferenceZeroLimit, 400)
    &&& r.include_negative_roots == switch_on(s, Flag::IncludeNegativeRoots)
    &&& r.allow_root_oversubscription == switch_on(s, Flag::AllowRootOversubscription)
    &&& r.root_validation == validation_or_off(s)
    &&& r.root_enclosure_digits == (match optional_number(s, Flag::RootEnclosureDigits) {
        Some(n) => Some(n as u32),
        None => None,
    })
}

/// A `run` request takes the capture level, root acquisition, root report
/// and root validation last given on its command line; without them it
/// captures only the claim, refines reference seeds, prints the reference
/// table and certifies nothing.
pub proof fn lemma_run_choices(r: RunRequest, s: Seq<(Flag, SettingModel)>)
    requires
        run_describes(r, s),
    ensures
        forall|c: ResearchCapture|
            find_setting(s, Flag::ResearchCapture) == Some(SettingModel::Capture(c))
                ==> r.research_capture == c,
        find_setting(s, Flag::ResearchCapture) is None ==> r.research_capture
            == ResearchCapture::Claim,
        forall|a: RootAcquisitionMode|
            find_setting(s, Flag::RootAcquisition) == Some(SettingModel::Acquisition(a))
                ==> r.root_acquisition == a,
        find_setting(s, Flag::RootAcquisition) is None ==> r.root_acquisition
            == RootAcquisitionMode::Seeded,
        forall|x: RootReport|
            find_setting(s, Flag::RootReport) == Some(SettingModel::Report(x)) ==> r.root_report
                == x,
        find_setting(s, Flag::RootReport) is None ==> r.root_report == RootReport::Reference,
        forall|v: RootValidation|
            find_setting(s, Flag::RootValidation) == Some(SettingModel::Validation(v))
                ==> r.root_validation == v,
        find_setting(s, Flag::RootValidation) is None ==> r.root_validation == RootValidation::Off,
        r.allow_root_oversubscription == find_setting(s, Flag::AllowRootOversubscription) is Some,
{
}

/// The `check-evenness` flags of a command line, with their defaults.
pub open spec fn evenness_describes(r: EvennessRequest, s: Seq<(Flag, SettingModel)>) -> bool {
    &&& r.lambda_sq == number_or(s, Flag::LambdaSq, 13)
    &&& r.n_modes == number_or(s, Flag::NModes, 120)
    &&& r.precision_digits == number_or(s, Flag::PrecisionDigits, 1000)
    &&& r.display_digits == number_or(s, Flag::DisplayDigits, 12)
    &&& r.research_capture == capture_or(s, Flag::ResearchCapture, ResearchCapture::Claim)
    &&& r.research_sector_eigenpairs == number_or(s, Flag::ResearchSectorEigenpairs, 8)
    &&& r.root_acquisition == acquisition_or_seeded(s)
}

/// The `sector-gap` flags of a command line, with their defaults.
pub open spec fn sector_gap_describes(r: SectorGapRequest, s: Seq<(Flag, SettingModel)>) -> bool {
    &&& r.lambda_sq == number_or(s, Flag::LambdaSq, 13)
    &&& r.n_modes == number_or(s, Flag::NModes, 120)
    &&& r.precision_digits == number_or(s, Flag::PrecisionDigits, 200)
    &&& r.eigenpairs == number_or(s, Flag::Eigenpairs, 2)
    &&& r.display_digits == number_or(s, Flag::DisplayDigits, 16)
}

/// The parsed command line holds the subcommand and the given settings,
/// with every default filled in.
pub open spec fn cli_describes(cli: Cli, c: CommandKind, s: Seq<(Flag, SettingModel)>) -> bool {
    &&& journal_describes(cli.capture_journal, s)
    &&& match c {
        CommandKind::Run => cli.command matches Command::Run(r) && run_describes(r, s),
        CommandKind::CheckEvenness => cli.command matches Command::CheckEvenness(r)
            && evenness_describes(r, s),
        CommandKind::SectorGap => cli.command matches Command::SectorGap(r) && sector_gap_describes(
            r,
            s,
        ),
    }
}

/// The last setting of a flag is one of the settings.
proof fn lemma_find_setting(s: Seq<(Flag, SettingModel)>, f: Flag)
    ensures
        find_setting(s, f) matches Some(m) ==> exists|k: int|
            0 <= k < s.len() && #[trigger] s[k] == (f, m),
    decreases s.len(),
{
    if s.len() > 0 && s.last().0 != f {
        lemma_find_setting(s.drop_last(), f);
        if find_setting(s, f) is Some {
            let k = choose|k: int|
                0 <= k < s.drop_last().len() && #[trigger] s.drop_last()[k] == (
                    f,
                    find_setting(s, f)->0,
                );
            assert(s[k] == s.drop_last()[k]);
        }
    } else if s.len() > 0 {
        assert(s[s.len() - 1] == s.last());
    }
}

/// The index of the last setting of `f`.
fn last_setting(settings: &Vec<(Flag, Setting)>, f: Flag) -> (r: Option<usize>)
    ensures
        match find_setting(settings_view(settings@), f) {
            Some(m) => r matches Some(k) && k < settings@.len() && settings@[k as int].1@ == m,
            None => r is None,
        },
{
    let mut found: Option<usize> = None;
    let mut k: usize = 0;
    proof {
        assert(settings_view(settings@).take(0) =~= Seq::<(Flag, SettingModel)>::empty());
    }
    while k < settings.len()
        invariant
            k <= settings@.len(),
            match find_setting(settings_view(settings@).take(k as int), f) {
                Some(m) => found matches Some(j) && j < k && settings@[j as int].1@ == m,
                None => found is None,
            },
        decreases settings@.len() - k,
    {
        proof {
            let v = settings_view(settings@);
            assert(v.take(k + 1).drop_last() =~= v.take(k as int));
            assert(v.take(k + 1).last() == v[k as int]);
        }
        if settings[k].0 == f {
            found = Some(k);
        }
        k = k + 1;
    }
    proof {
        assert(settings_view(settings@).take(settings@.len() as int) =~= settings_view(settings@));
    }
    found
}

/// The number given for a number flag, or `default`.
fn number_setting(settings: &Vec<(Flag, Setting)>, f: Flag, max: u64, default: u64) -> (r: u64)
    requires
        well_kinded(settings_view(settings@)),
        spec_value_kind(f) == ValueKind::Number(max),
        default <= max,
    ensures
        r == number_or(settings_view(settings@), f, default as nat),
        r <= max,
{
    proof {
        lemma_find_setting(settings_view(settings@), f);
    }
    match last_setting(settings, f) {
        None => default,
        Some(k) => {
            proof {
                let v = settings_view(settings@);
                let m = find_setting(v, f)->0;
                let j = choose|j: int| 0 <= j < v.len() && #[trigger] v[j] == (f, m);
                assert(v[j].1 == m);
            }
            match &settings[k].1 {
                Setting::Number(n) => *n,
                _ => default,
            }
        },
    }
}

/// The number given for a number flag, if any.
fn optional_number_setting(settings: &Vec<(Flag, Setting)>, f: Flag, max: u64) -> (r: Option<u64>)
    requires
        well_kinded(settings_view(settings@)),
        spec_value_kind(f) == ValueKind::Number(max),
    ensures
        match optional_number(settings_view(settings@), f) {
            Some(n) => r == Some(n as u64) && n <= max,
            None => r is None,
        },
{
    proof {
        lemma_find_setting(settings_view(settings@), f);
    }
    match last_setting(settings, f) {
        None => None,
        Some(k) => {
            proof {
                let v = settings_view(settings@);
                let m = find_setting(v, f)->0;
                let j = choose|j: int| 0 <= j < v.len() && #[trigger] v[j] == (f, m);
                assert(v[j].1 == m);
            }
            match &settings[k].1 {
                Setting::Number(n) => Some(*n),
                _ => None,
            }
        },
    }
}

fn switch_setting(settings: &Vec<(Flag, Setting)>, f: Flag) -> (r: bool)
    ensures
        r == switch_on(settings_view(settings@), f),
{
    last_setting(settings, f).is_some()
}

fn capture_setting(settings: &Vec<(Flag, Setting)>, default: ResearchCapture) -> (r: ResearchCapture)
    ensures
        r == capture_or(settings_view(settings@), Flag::ResearchCapture, default),
{
    match last_setting(settings, Flag::ResearchCapture) {
        None => default,
        Some(k) => match &settings[k].1 {
            Setting::Capture(c) => *c,
            _ => default,
        },
    }
}

fn acquisition_setting(settings: &Vec<(Flag, Setting)>) -> (r: RootAcquisitionMode)
    ensures
        r == acquisition_or_seeded(settings_view(settings@)),
{
    match last_setting(settings, Flag::RootAcquisition) {
        None => RootAcquisitionMode::Seeded,
        Some(k) => match &settings[k].1 {
            Setting::Acquisition(a) => *a,
            _ => RootAcquisitionMode::Seeded,
        },
    }
}

fn report_setting(settings: &Vec<(Flag, Setting)>) -> (r: RootReport)
    ensures
        r == report_or_reference(settings_view(settings@)),
{
    match last_setting(settings, Flag::RootReport) {
        None => RootReport::Reference,
        Some(k) => match &settings[k].1 {
            Setting::Report(x) => *x,
            _ => RootReport::Reference,
        },
    }
}

fn validation_setting(settings: &Vec<(Flag, Setting)>) -> (r: RootValidation)
    ensures
        r == validation_or_off(settings_view(settings@)),
{
    match last_setting(settings, Flag::RootValidation) {
        None => RootValidation::Off,
        Some(k) => match &settings[k].1 {
            Setting::Validation(x) => *x,
            _ => RootValidation::Off,
        },
    }
}

fn policy_setting(settings: &Vec<(Flag, Setting)>) -> (r: CapturePolicy)
    ensures
        r == policy_or_full(settings_view(settings@)),
{
    match last_setting(settings, Flag::CapturePolicy) {
        None => CapturePolicy::Full,
        Some(k) => match &settings[k].1 {
            Setting::Policy(x) => *x,
            _ => CapturePolicy::Full,
        },
    }
}

fn output_setting(settings: &Vec<(Flag, Setting)>) -> (r: String)
    ensures
        r@ == output_or_default(settings_view(settings@)),
{
    match last_setting(settings, Flag::CaptureOutput) {
        None => String::from_str(".xcelerator-cache/claim-runs"),
        Some(k) => match &settings[k].1 {
            Setting::Text(t) => t.clone(),
            _ => String::from_str(".xcelerator-cache/claim-runs"),
        },
    }
}

fn checkpoint_settings(settings: &Vec<(Flag, Setting)>) -> (r: Vec<usize>)
    ensures
        r@.map_values(|x: usize| x as nat) == listed_checkpoints(settings_view(settings@)),
{
    let mut all: Vec<usize> = Vec::new();
    let mut k: usize = 0;
    proof {
        assert(settings_view(settings@).take(0) =~= Seq::<(Flag, SettingModel)>::empty());
        assert(all@.map_values(|x: usize| x as nat) =~= Seq::<nat>::empty());
    }
    while k < settings.len()
        invariant
            k <= settings@.len(),
            all@.map_values(|x: usize| x as nat) == listed_checkpoints(
                settings_view(settings@).take(k as int),
            ),
        decreases settings@.len() - k,
    {
        proof {
            let v = settings_view(settings@);
            assert(v.take(k + 1).drop_last() =~= v.take(k as int));
            assert(v.take(k + 1).last() == v[k as int]);
        }
        if settings[k].0 == Flag::CapturePrefixCheckpoints {
            match &settings[k].1 {
                Setting::List(values) => {
                    let ghost before = all@;
                    let mut j: usize = 0;
                    while j < values.len()
                        invariant
                            j <= values@.len(),
                            all@ == before + values@.take(j as int),
                        decreases values@.len() - j,
                    {
                        all.push(values[j]);
                        proof {
                            assert(values@.take(j + 1) =~= values@.take(j as int).push(values@[j as int]));
                        }
                        j = j + 1;
                    }
                    proof {
                        assert(values@.take(values@.len() as int) =~= values@);
                        assert(all@.map_values(|x: usize| x as nat) =~= before.map_values(
                            |x: usize| x as nat,
                        ) + values@.map_values(|x: usize| x as nat));
                    }
                },
                _ => {},
            }
        }
        k = k + 1;
    }
    proof {
        assert(settings_view(settings@).take(settings@.len() as int) =~= settings_view(settings@));
    }
    all
}

impl Cli {
    /// Reads a command line whose first token names the program.
    pub fn try_parse_from(args: &[&str]) -> (r: Result<Cli, CliError>)
        ensures
            match spec_parse(tokens_view(args@)) {
                Ok((c, s)) => r matches Ok(cli) && cli_describes(cli, c, s),
                Err(e) => r matches Err(x) && x@ == e,
            },
    {
        let (kind, settings) = match parse_command_line(args) {
            Err(e) => return Err(e),
            Ok(parsed) => parsed,
        };
        let journal = CaptureJournalArgs {
            capture_policy: policy_setting(&settings),
            capture_output: output_setting(&settings),
            capture_prefix_checkpoints: checkpoint_settings(&settings),
            capture_working_precision_bits: match optional_number_setting(
                &settings,
                Flag::CaptureWorkingPrecisionBits,
                u32::MAX as u64,
            ) {
                Some(n) => Some(n as u32),
                None => None,
            },
            capture_grid_resolution: match optional_number_setting(
                &settings,
                Flag::CaptureGridResolution,
                usize::MAX as u64,
            ) {
                Some(n) => Some(n as usize),
                None => None,
            },
            capture_profile_steps: match optional_number_setting(
                &settings,
                Flag::CaptureProfileSteps,
                usize::MAX as u64,
            ) {
                Some(n) => Some(n as usize),
                None => None,
            },
            capture_reduction_max_dimension: number_setting(
                &settings,
                Flag::CaptureReductionMaxDimension,
                usize::MAX as u64,
                8193,
            ) as usize,
            require_complete_capture: switch_setting(&settings, Flag::RequireCompleteCapture),
        };
        let command = match kind {
            CommandKind::Run => Command::Run(
                RunRequest {
                    lambda_sq: number_setting(&settings, Flag::LambdaSq, u64::MAX, 13),
                    n_modes: number_setting(&settings, Flag::NModes, usize::MAX as u64, 120) as usize,
                    top: number_setting(&settings, Flag::Top, usize::MAX as u64, 20) as usize,
                    first_root_index: number_setting(
                        &settings,
                        Flag::FirstRootIndex,
                        usize::MAX as u64,
                        1,
                    ) as usize,
                    precision_digits: number_setting(
                        &settings,
                        Flag::PrecisionDigits,
                        u32::MAX as u64,
                        200,
                    ) as u32,
                    display_digits: number_setting(
                        &settings,
                        Flag::DisplayDigits,
                        usize::MAX as u64,
                        16,
                    ) as usize,
                    f64_only: switch_setting(&settings, Flag::F64Only),
                    no_force_even: switch_setting(&settings, Flag::NoForceEven),
                    research_capture: capture_setting(&settings, ResearchCapture::Claim),
                    research_sector_eigenpairs: number_setting(
                        &settings,
                        Flag::ResearchSectorEigenpairs,
                        usize::MAX as u64,
                        8,
                    ) as usize,
                    root_acquisition: acquisition_setting(&settings),
                    root_report: report_setting(&settings),
                    minimum_match_digits: number_setting(
                        &settings,
                        Flag::MinimumMatchDigits,
                        u32::MAX as u64,
                        10,
                    ) as u32,
                    reference_zero_limit: number_setting(
                        &settings,
                        Flag::ReferenceZeroLimit,
                        usize::MAX as u64,
                        400,
                    ) as usize,
                    include_negative_roots: switch_setting(&settings, Flag::IncludeNegativeRoots),
                    allow_root_oversubscription: switch_setting(
                        &settings,
                        Flag::AllowRootOversubscription,
                    ),
                    root_validation: validation_setting(&settings),
                    root_enclosure_digits: match optional_number_setting(
                        &settings,
                        Flag::RootEnclosureDigits,
                        u32::MAX as u64,
                    ) {
                        Some(n) => Some(n as u32),
                        None => None,
                    },
                },
            ),
            CommandKind::CheckEvenness => Command::CheckEvenness(
                EvennessRequest {
                    lambda_sq: number_setting(&settings, Flag::LambdaSq, u64::MAX, 13),
                    n_modes: number_setting(&settings, Flag::NModes, usize::MAX as u64, 120) as usize,
                    precision_digits: number_setting(
                        &settings,
                        Flag::PrecisionDigits,
                        u32::MAX as u64,
                        1000,
                    ) as u32,
                    display_digits: number_setting(
                        &settings,
                        Flag::DisplayDigits,
                        usize::MAX as u64,
                        12,
                    ) as usize,
                    research_capture: capture_setting(&settings, ResearchCapture::Claim),
                    research_sector_eigenpairs: number_setting(
                        &settings,
                        Flag::ResearchSectorEigenpairs,
                        usize::MAX as u64,
                        8,
                    ) as usize,
                    root_acquisition: acquisition_setting(&settings),
                },
            ),
            CommandKind::SectorGap => Command::SectorGap(
                SectorGapRequest {
                    lambda_sq: number_setting(&settings, Flag::LambdaSq, u64::MAX, 13),
                    n_modes: number_setting(&settings, Flag::NModes, usize::MAX as u64, 120) as usize,
                    precision_digits: number_setting(
                        &settings,
                        Flag::PrecisionDigits,
                        u32::MAX as u64,
                        200,
                    ) as u32,
                    eigenpairs: number_setting(&settings, Flag::Eigenpairs, usize::MAX as u64, 2)
                        as usize,
                    display_digits: number_setting(
                        &settings,
                        Flag::DisplayDigits,
                        usize::MAX as u64,
                        16,
                    ) as usize,
                },
            ),
        };
        Ok(Cli { command, capture_journal: journal })
    }
}

/// The application version that `--version` reports.
pub fn application_version() -> (s: String)
    ensures
        s@ == "2.5.0"@,
{
    String::from_str("2.5.0")
}

/// The usage text that `--help` shows.
pub open spec fn usage_text() -> Seq<char> {
    "Usage: ccm-reproduction [OPTIONS] <COMMAND>\n\nCommands:\n  run             Run the CCM construction at given (lambda^2, N) and report eigenvalues vs Riemann zeros\n  check-evenness  Measure the natural evenness of the smallest Weil eigenvector\n  sector-gap      Analyze the low even and odd CCM parity sectors and report GapLog\n\nOptions:\n  --capture-policy <full|claim1c-hp1000|claim8-natural>\n  --capture-output <DIR>\n  --capture-prefix-checkpoints <K,...>\n  --capture-working-precision-bits <BITS>\n  --capture-grid-resolution <N>\n  --capture-profile-steps <N>\n  --capture-reduction-max-dimension <N>\n  --require-complete-capture\n  -h, --help     Print help\n  -V, --version  Print version"@
}

/// The text shown for a rejected command line (or the help and version text).
pub open spec fn spec_cli_message(e: CliErrorModel) -> Seq<char> {
    match e {
        CliErrorModel::DisplayHelp => usage_text(),
        CliErrorModel::DisplayVersion => "ccm-reproduction 2.5.0"@,
        CliErrorModel::MissingSubcommand => "'ccm-reproduction' requires a subcommand but one was not provided"@,
        CliErrorModel::UnrecognizedSubcommand(name) => "unrecognized subcommand '"@ + name + "'"@,
        CliErrorModel::UnexpectedArgument(argument) => "unexpected argument '"@ + argument + "' found"@,
        CliErrorModel::MissingValue(f) => "a value is required for '"@ + spec_flag_name(f)
            + "' but none was supplied"@,
        CliErrorModel::UnexpectedValue(f) => "unexpected value for '"@ + spec_flag_name(f)
            + "': the flag takes no value"@,
        CliErrorModel::InvalidValue(f, value) => "invalid value '"@ + value + "' for '"@
            + spec_flag_name(f) + "'"@,
        CliErrorModel::ArgumentRepeated(f) => "the argument '"@ + spec_flag_name(f)
            + "' cannot be used multiple times"@,
    }
}

impl CliError {
    /// Help and version requests are answers, not failures.
    pub fn is_display(&self) -> (r: bool)
        ensures
            r == (self@ is DisplayHelp || self@ is DisplayVersion),
    {
        match self {
            CliError::DisplayHelp | CliError::DisplayVersion => true,
            _ => false,
        }
    }

    /// The text shown for the rejection (or the help and version text).
    pub fn message(&self) -> (s: String)
        ensures
            s@ == spec_cli_message(self@),
    {
        match self {
            CliError::DisplayHelp => String::from_str("Usage: ccm-reproduction [OPTIONS] <COMMAND>\n\nCommands:\n  run             Run the CCM construction at given (lambda^2, N) and report eigenvalues vs Riemann zeros\n  check-evenness  Measure the natural evenness of the smallest Weil eigenvector\n  sector-gap      Analyze the low even and odd CCM parity sectors and report GapLog\n\nOptions:\n  --capture-policy <full|claim1c-hp1000|claim8-natural>\n  --capture-output <DIR>\n  --capture-prefix-checkpoints <K,...>\n  --capture-working-precision-bits <BITS>\n  --capture-grid-resolution <N>\n  --capture-profile-steps <N>\n  --capture-reduction-max-dimension <N>\n  --require-complete-capture\n  -h, --help     Print help\n  -V, --version  Print version"),
            CliError::DisplayVersion => String::from_str("ccm-reproduction 2.5.0"),
            CliError::MissingSubcommand => String::from_str(
                "'ccm-reproduction' requires a subcommand but one was not provided",
            ),
            CliError::UnrecognizedSubcommand { name } => join(
                join(String::from_str("unrecognized subcommand '"), name.as_str()),
                "'",
            ),
            CliError::UnexpectedArgument { argument } => join(
                join(String::from_str("unexpected argument '"), argument.as_str()),
                "' found",
            ),
            CliError::MissingValue { flag } => join(
                join(String::from_str("a value is required for '"), flag_name(*flag).as_str()),
                "' but none was supplied",
            ),
            CliError::UnexpectedValue { flag } => join(
                join(String::from_str("unexpected value for '"), flag_name(*flag).as_str()),
                "': the flag takes no value",
            ),
            CliError::InvalidValue { flag, value } => join(
                join(
                    join(join(String::from_str("invalid value '"), value.as_str()), "' for '"),
                    flag_name(*flag).as_str(),
                ),
                "'",
            ),
            CliError::ArgumentRepeated { flag } => join(
                join(String::from_str("the argument '"), flag_name(*flag).as_str()),
                "' cannot be used multiple times",
            ),
        }
    }
}

} // verus!
