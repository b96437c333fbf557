//! The decisions of SD card initialization: which bus step comes next and
//! what each answer of the card leads to.
use vstd::prelude::*;
use super::commands::{
    SdResponse, ACMD41_SD_SEND_OP_COND, CMD0_GO_IDLE_STATE, CMD10_SEND_CID, CMD16_SET_BLOCKLEN, CMD55_APP_CMD,
    CMD58_READ_OCR, CMD8_SEND_IF_COND, CMD9_SEND_CSD, R1_IDLE_STATE, R1_MSB,
};
use super::error::{SdCardError, SdCardResult};
use super::protocol::{
    acmd41_arg, capacity_of_csd, card_type_of, command, command_exchange, csd_capacity, data_exchange, is_sdsc,
    release_op, select_op, stopped, SdCardInfo, SdCardType,
};

verus! {

/// Where initialization stands: the step it takes next.
#[derive(Debug, Clone, Copy, PartialEq, Eq, Structural)]
pub enum InitStage {
    Release,
    Clocks,
    Select,
    Cmd0,
    Cmd8,
    Cmd55,
    Acmd41,
    Cmd58,
    Cmd9,
    CsdData,
    Cmd10,
    CidData,
    Cmd16,
    Close,
    Done,
}

/// A use of the bus: release or assert chip select, ten bytes of clocks, a
/// command with its answer, a register's data block; or nothing more.
#[derive(Debug, Clone, Copy)]
pub enum InitAction {
    Release,
    Clocks,
    Select,
    Command(u8, u32),
    ReadData,
    Stop,
}

/// What a use of the bus gave: whether a chip select or clock call
/// succeeded, a command's answer, or a data block.
#[derive(Debug, Clone, Copy)]
pub enum InitAnswer {
    Bus(bool),
    Response(SdCardResult<SdResponse>),
    Data(SdCardResult<[u8; 16]>),
}

/// The state of an initialization: its stage, whether the card is a
/// version 2 card, the ACMD41 attempts that found it busy, what is known of
/// the card, and the result it will report.
#[derive(Debug, Clone, Copy)]
pub struct InitState {
    pub stage: InitStage,
    pub v2: bool,
    pub tries: u32,
    pub info: SdCardInfo,
    pub outcome: SdCardResult<()>,
}

/// The most ACMD41 attempts before the card is given up.
pub const MAX_ACMD41_ATTEMPTS: u32 = 1000;

/// The OCR register from the four bytes after the R3 answer, most
/// significant first.
pub open spec fn ocr_of(d: [u8; 4]) -> u32 {
    (d@[0] as int * 0x100_0000 + d@[1] as int * 0x1_0000 + d@[2] as int * 0x100 + d@[3] as int) as u32
}

/// The state initialization starts in, with the card information it had.
pub open spec fn start_state(info: SdCardInfo) -> InitState {
    InitState { stage: InitStage::Release, v2: false, tries: 0, info, outcome: Ok(()) }
}

impl InitState {
    pub open spec fn wf(self) -> bool {
        &&& self.tries <= MAX_ACMD41_ATTEMPTS
        &&& (self.stage == InitStage::Release || self.stage == InitStage::Clocks || self.stage == InitStage::Select
            || self.stage == InitStage::Cmd0 || self.stage == InitStage::Cmd8 || self.stage == InitStage::Cmd55
            || self.stage == InitStage::Acmd41) ==> self.tries < MAX_ACMD41_ATTEMPTS
    }
}

/// The use of the bus each stage makes.
pub open spec fn stage_action(stage: InitStage, v2: bool) -> InitAction {
    match stage {
        InitStage::Release => InitAction::Release,
        InitStage::Clocks => InitAction::Clocks,
        InitStage::Select => InitAction::Select,
        InitStage::Cmd0 => InitAction::Command(CMD0_GO_IDLE_STATE, 0),
        InitStage::Cmd8 => InitAction::Command(CMD8_SEND_IF_COND, 0x1AA),
        InitStage::Cmd55 => InitAction::Command(CMD55_APP_CMD, 0),
        InitStage::Acmd41 => InitAction::Command(ACMD41_SD_SEND_OP_COND, acmd41_arg(v2)),
        InitStage::Cmd58 => InitAction::Command(CMD58_READ_OCR, 0),
        InitStage::Cmd9 => InitAction::Command(CMD9_SEND_CSD, 0),
        InitStage::CsdData => InitAction::ReadData,
        InitStage::Cmd10 => InitAction::Command(CMD10_SEND_CID, 0),
        InitStage::CidData => InitAction::ReadData,
        InitStage::Cmd16 => InitAction::Command(CMD16_SET_BLOCKLEN, 512),
        InitStage::Close => InitAction::Release,
        InitStage::Done => InitAction::Stop,
    }
}

/// Stops with error `e`.
pub open spec fn stop_with(s: InitState, e: SdCardError) -> InitState {
    InitState { stage: InitStage::Done, outcome: Err(e), ..s }
}

/// Releases chip select and then reports `InitializationFailed`.
pub open spec fn give_up(s: InitState) -> InitState {
    InitState { stage: InitStage::Close, outcome: Err(SdCardError::InitializationFailed), ..s }
}

pub open spec fn go_to(s: InitState, stage: InitStage) -> InitState {
    InitState { stage, ..s }
}

/// An ACMD41 attempt that did not find the card ready: try again, or give
/// up after the last attempt.
pub open spec fn busy_attempt(s: InitState) -> InitState {
    let t = (s.tries + 1) as u32;
    if t >= MAX_ACMD41_ATTEMPTS {
        InitState { tries: t, ..give_up(s) }
    } else {
        InitState { stage: InitStage::Cmd55, tries: t, ..s }
    }
}

/// After the registers: a standard-capacity card is told the block length,
/// any other card is done once chip select is released.
pub open spec fn after_registers(s: InitState) -> InitState {
    if is_sdsc(s.info.card_type) {
        go_to(s, InitStage::Cmd16)
    } else {
        InitState { stage: InitStage::Close, outcome: Ok(()), ..s }
    }
}

/// What an answer leads to. A failed chip select or clock call is
/// `SpiError`; a command that fails ends initialization with its error,
/// except the CSD and CID reads, which are skipped when they fail. CMD0
/// must report idle; CMD8 answered validly and without error tells a
/// version 2 card; ACMD41 is tried (each time after CMD55, and only when
/// CMD55 is answered validly) until the card answers validly and not idle,
/// at most 1000 times; a valid CMD58 answer gives the OCR and with it the
/// card type; the CSD gives the capacity; a standard-capacity card must
/// accept CMD16 without error. An answer of the wrong kind changes nothing.
pub open spec fn next_state(s: InitState, a: InitAnswer) -> InitState {
    match s.stage {
        InitStage::Release | InitStage::Clocks | InitStage::Select | InitStage::Close => match a {
            InitAnswer::Bus(ok) => if !ok {
                stop_with(s, SdCardError::SpiError)
            } else {
                match s.stage {
                    InitStage::Release => go_to(s, InitStage::Clocks),
                    InitStage::Clocks => go_to(s, InitStage::Select),
                    InitStage::Select => go_to(s, InitStage::Cmd0),
                    _ => go_to(s, InitStage::Done),
                }
            },
            _ => s,
        },
        InitStage::Cmd0 | InitStage::Cmd8 | InitStage::Cmd55 | InitStage::Acmd41 | InitStage::Cmd58
        | InitStage::Cmd16 => match a {
            InitAnswer::Response(Err(e)) => stop_with(s, e),
            InitAnswer::Response(Ok(resp)) => match s.stage {
                InitStage::Cmd0 => if resp.r1 & R1_IDLE_STATE != 0 {
                    go_to(s, InitStage::Cmd8)
                } else {
                    give_up(s)
                },
                InitStage::Cmd8 => InitState {
                    stage: InitStage::Cmd55,
                    v2: resp.r1 & R1_MSB == 0 && resp.r1 & 0x7E == 0,
                    ..s
                },
                InitStage::Cmd55 => if resp.r1 & R1_MSB == 0 {
                    go_to(s, InitStage::Acmd41)
                } else {
                    busy_attempt(s)
                },
                InitStage::Acmd41 => if resp.r1 & R1_MSB == 0 && resp.r1 & R1_IDLE_STATE == 0 {
                    go_to(s, InitStage::Cmd58)
                } else {
                    busy_attempt(s)
                },
                InitStage::Cmd58 => if resp.r1 & R1_MSB == 0 {
                    InitState {
                        stage: InitStage::Cmd9,
                        info: SdCardInfo {
                            ocr: ocr_of(resp.data),
                            card_type: card_type_of(s.v2, ocr_of(resp.data)),
                            ..s.info
                        },
                        ..s
                    }
                } else {
                    go_to(s, InitStage::Cmd9)
                },
                _ => if resp.r1 & 0x7E != 0 {
                    give_up(s)
                } else {
                    InitState { stage: InitStage::Close, outcome: Ok(()), ..s }
                },
            },
            _ => s,
        },
        InitStage::Cmd9 | InitStage::Cmd10 => match a {
            InitAnswer::Response(r) => {
                let readable = r matches Ok(resp) && resp.r1 & 0x7E == 0;
                if s.stage == InitStage::Cmd9 {
                    if readable { go_to(s, InitStage::CsdData) } else { go_to(s, InitStage::Cmd10) }
                } else {
                    if readable { go_to(s, InitStage::CidData) } else { after_registers(s) }
                }
            },
            _ => s,
        },
        InitStage::CsdData => match a {
            InitAnswer::Data(Ok(csd)) => InitState {
                stage: InitStage::Cmd10,
                info: SdCardInfo { csd, capacity_sectors: csd_capacity(s.info.card_type, csd@), ..s.info },
                ..s
            },
            InitAnswer::Data(Err(_)) => go_to(s, InitStage::Cmd10),
            _ => s,
        },
        InitStage::CidData => match a {
            InitAnswer::Data(Ok(cid)) => after_registers(InitState { info: SdCardInfo { cid, ..s.info }, ..s }),
            InitAnswer::Data(Err(_)) => after_registers(s),
            _ => s,
        },
        InitStage::Done => s,
    }
}

/// The state after the answers `answers`, from `s0`.
pub open spec fn run_state(s0: InitState, answers: Seq<InitAnswer>) -> InitState
    decreases answers.len(),
{
    if answers.len() == 0 {
        s0
    } else {
        next_state(run_state(s0, answers.drop_last()), answers.last())
    }
}

/// `ops` (with the outcome of each call in `oks`) is the bus use of `act`,
/// which gave `ans`.
#[verifier::opaque]
pub open spec fn step_exchange(act: InitAction, ops: Seq<(u8, Seq<u8>, Seq<u8>)>, oks: Seq<bool>, ans: InitAnswer) -> bool {
    &&& oks.len() == ops.len()
    &&& match act {
        InitAction::Release => ops == seq![release_op()] && ans == InitAnswer::Bus(oks[0]),
        InitAction::Select => ops == seq![select_op()] && ans == InitAnswer::Bus(oks[0]),
        InitAction::Clocks => ops.len() == 1 && ops[0].0 == 2 && ops[0].1 == Seq::new(10, |i: int| 0xFFu8)
            && ans == InitAnswer::Bus(oks[0]),
        InitAction::Command(index, arg) => ans matches InitAnswer::Response(r) && command_exchange(command(index, arg), ops, r)
            && stopped(oks, r == Err::<SdResponse, SdCardError>(SdCardError::SpiError)),
        InitAction::ReadData => ans matches InitAnswer::Data(r) && data_exchange(ops, r)
            && stopped(oks, r == Err::<[u8; 16], SdCardError>(SdCardError::SpiError)),
        InitAction::Stop => false,
    }
}

/// Stretch `i` of a transcript: the record from `cuts[i]` to `cuts[i + 1]`
/// is the use of the bus that the stage reached after the first `i`
/// answers calls for, and gave answer `i`.
pub open spec fn stretch_fits(
    s0: InitState,
    answers: Seq<InitAnswer>,
    cuts: Seq<int>,
    ops: Seq<(u8, Seq<u8>, Seq<u8>)>,
    oks: Seq<bool>,
    i: int,
) -> bool {
    let s = run_state(s0, answers.take(i));
    &&& 0 <= cuts[i] < cuts[i + 1] <= ops.len()
    &&& s.stage != InitStage::Done
    &&& step_exchange(stage_action(s.stage, s.v2), ops.subrange(cuts[i], cuts[i + 1]), oks.subrange(cuts[i], cuts[i + 1]), answers[i])
}

/// The bus record `ops`/`oks` is an initialization from `s0` that got
/// `answers`: the record falls into one stretch per answer (see
/// `stretch_fits`), one after the other.
pub open spec fn init_transcript(
    s0: InitState,
    answers: Seq<InitAnswer>,
    cuts: Seq<int>,
    ops: Seq<(u8, Seq<u8>, Seq<u8>)>,
    oks: Seq<bool>,
) -> bool {
    &&& cuts.len() == answers.len() + 1
    &&& cuts[0] == 0
    &&& cuts.last() == ops.len()
    &&& oks.len() == ops.len()
    &&& forall|i: int| 0 <= i < answers.len() ==> #[trigger] stretch_fits(s0, answers, cuts, ops, oks, i)
}

proof fn lemma_stretch_kept(
    s0: InitState,
    answers: Seq<InitAnswer>,
    cuts: Seq<int>,
    ops: Seq<(u8, Seq<u8>, Seq<u8>)>,
    oks: Seq<bool>,
    new_ops: Seq<(u8, Seq<u8>, Seq<u8>)>,
    new_oks: Seq<bool>,
    ans: InitAnswer,
    i: int,
)
    requires
        0 <= i < answers.len(),
        cuts.len() == answers.len() + 1,
        stretch_fits(s0, answers, cuts, ops, oks, i),
        cuts[i + 1] <= ops.len(),
        new_ops.len() >= ops.len(),
        new_oks.len() == new_ops.len(),
        new_ops.take(ops.len() as int) == ops,
        new_oks.take(ops.len() as int) == oks,
        oks.len() == ops.len(),
    ensures
        stretch_fits(s0, answers.push(ans), cuts.push(new_ops.len() as int), new_ops, new_oks, i),
{
    let a2 = answers.push(ans);
    let c2 = cuts.push(new_ops.len() as int);
    assert(a2.take(i) =~= answers.take(i));
    assert(a2[i] == answers[i]);
    assert(c2[i] == cuts[i]);
    assert(c2[i + 1] == cuts[i + 1]);
    assert(new_ops.subrange(cuts[i], cuts[i + 1]) =~= ops.subrange(cuts[i], cuts[i + 1]));
    assert forall|j: int| 0 <= j < cuts[i + 1] - cuts[i] implies #[trigger] new_oks.subrange(cuts[i], cuts[i + 1])[j]
        == oks.subrange(cuts[i], cuts[i + 1])[j] by {
        assert(new_oks.take(ops.len() as int)[cuts[i] + j] == oks[cuts[i] + j]);
    }
    assert(new_oks.subrange(cuts[i], cuts[i + 1]) =~= oks.subrange(cuts[i], cuts[i + 1]));
}

/// A transcript grows by the next stretch of the record.
pub proof fn lemma_transcript_push(
    s0: InitState,
    answers: Seq<InitAnswer>,
    cuts: Seq<int>,
    ops: Seq<(u8, Seq<u8>, Seq<u8>)>,
    oks: Seq<bool>,
    new_ops: Seq<(u8, Seq<u8>, Seq<u8>)>,
    new_oks: Seq<bool>,
    ans: InitAnswer,
)
    requires
        init_transcript(s0, answers, cuts, ops, oks),
        new_ops.len() > ops.len(),
        new_oks.len() == new_ops.len(),
        new_ops.take(ops.len() as int) == ops,
        new_oks.take(oks.len() as int) == oks,
        run_state(s0, answers).stage != InitStage::Done,
        step_exchange(
            stage_action(run_state(s0, answers).stage, run_state(s0, answers).v2),
            new_ops.skip(ops.len() as int),
            new_oks.skip(ops.len() as int),
            ans,
        ),
    ensures
        init_transcript(s0, answers.push(ans), cuts.push(new_ops.len() as int), new_ops, new_oks),
        run_state(s0, answers.push(ans)) == next_state(run_state(s0, answers), ans),
{
    let a2 = answers.push(ans);
    let c2 = cuts.push(new_ops.len() as int);
    assert(a2.drop_last() =~= answers);
    assert forall|i: int| 0 <= i < a2.len() implies #[trigger] stretch_fits(s0, a2, c2, new_ops, new_oks, i) by {
        if i < answers.len() {
            assert(stretch_fits(s0, answers, cuts, ops, oks, i));
            if i + 1 < answers.len() {
                assert(stretch_fits(s0, answers, cuts, ops, oks, i + 1));
            }
            lemma_stretch_kept(s0, answers, cuts, ops, oks, new_ops, new_oks, ans, i);
        } else {
            assert(a2.take(i) =~= answers);
            assert(new_ops.subrange(c2[i], c2[i + 1]) =~= new_ops.skip(ops.len() as int));
            assert(new_oks.subrange(c2[i], c2[i + 1]) =~= new_oks.skip(ops.len() as int));
        }
    }
}

/// How far initialization still has to go: every step lowers it.
pub open spec fn progress(s: InitState) -> int {
    let rank = match s.stage {
        InitStage::Release => 0int,
        InitStage::Clocks => 1,
        InitStage::Select => 2,
        InitStage::Cmd0 => 3,
        InitStage::Cmd8 => 4,
        InitStage::Cmd55 => 5,
        InitStage::Acmd41 => 6,
        InitStage::Cmd58 => 7,
        InitStage::Cmd9 => 8,
        InitStage::CsdData => 9,
        InitStage::Cmd10 => 10,
        InitStage::CidData => 11,
        InitStage::Cmd16 => 12,
        InitStage::Close => 13,
        InitStage::Done => 14,
    };
    (MAX_ACMD41_ATTEMPTS - s.tries) * 16 + (14 - rank)
}

/// Whether an answer is of the kind the stage's action gives.
pub open spec fn answer_fits(stage: InitStage, a: InitAnswer) -> bool {
    match stage {
        InitStage::Release | InitStage::Clocks | InitStage::Select | InitStage::Close => a is Bus,
        InitStage::CsdData | InitStage::CidData => a is Data,
        InitStage::Done => false,
        _ => a is Response,
    }
}

impl InitState {
    /// The state an initialization starts in.
    pub fn start(info: SdCardInfo) -> (s: Self)
        ensures
            s == start_state(info),
            s.wf(),
    {
        InitState { stage: InitStage::Release, v2: false, tries: 0, info, outcome: Ok(()) }
    }

    /// The use of the bus the state calls for.
    pub fn action(&self) -> (a: InitAction)
        ensures
            a == stage_action(self.stage, self.v2),
    {
        match self.stage {
            InitStage::Release => InitAction::Release,
            InitStage::Clocks => InitAction::Clocks,
            InitStage::Select => InitAction::Select,
            InitStage::Cmd0 => InitAction::Command(CMD0_GO_IDLE_STATE, 0),
            InitStage::Cmd8 => InitAction::Command(CMD8_SEND_IF_COND, 0x1AA),
            InitStage::Cmd55 => InitAction::Command(CMD55_APP_CMD, 0),
            InitStage::Acmd41 => InitAction::Command(ACMD41_SD_SEND_OP_COND, if self.v2 { 0x40000000 } else { 0 }),
            InitStage::Cmd58 => InitAction::Command(CMD58_READ_OCR, 0),
            InitStage::Cmd9 => InitAction::Command(CMD9_SEND_CSD, 0),
            InitStage::CsdData => InitAction::ReadData,
            InitStage::Cmd10 => InitAction::Command(CMD10_SEND_CID, 0),
            InitStage::CidData => InitAction::ReadData,
            InitStage::Cmd16 => InitAction::Command(CMD16_SET_BLOCKLEN, 512),
            InitStage::Close => InitAction::Release,
            InitStage::Done => InitAction::Stop,
        }
    }

    pub fn is_done(&self) -> (b: bool)
        ensures
            b == (self.stage == InitStage::Done),
    {
        match self.stage {
            InitStage::Done => true,
            _ => false,
        }
    }
}

fn stop_at(s: &InitState, e: SdCardError) -> (t: InitState)
    ensures
        t == stop_with(*s, e),
{
    InitState { stage: InitStage::Done, outcome: Err(e), ..*s }
}

fn give_up_at(s: &InitState) -> (t: InitState)
    ensures
        t == give_up(*s),
{
    InitState { stage: InitStage::Close, outcome: Err(SdCardError::InitializationFailed), ..*s }
}

fn move_to(s: &InitState, stage: InitStage) -> (t: InitState)
    ensures
        t == go_to(*s, stage),
{
    InitState { stage, ..*s }
}

fn after_busy(s: &InitState) -> (t: InitState)
    requires
        s.tries < MAX_ACMD41_ATTEMPTS,
    ensures
        t == busy_attempt(*s),
{
    let t = s.tries + 1;
    if t >= MAX_ACMD41_ATTEMPTS {
        InitState { tries: t, ..give_up_at(s) }
    } else {
        InitState { stage: InitStage::Cmd55, tries: t, ..*s }
    }
}

fn after_regs(s: &InitState) -> (t: InitState)
    ensures
        t == after_registers(*s),
{
    if s.info.card_type == SdCardType::SdscV1 || s.info.card_type == SdCardType::SdscV2 {
        move_to(s, InitStage::Cmd16)
    } else {
        InitState { stage: InitStage::Close, outcome: Ok(()), ..*s }
    }
}

/// The OCR from the four bytes of an R3 answer (see `ocr_of`).
pub fn ocr_value(d: [u8; 4]) -> (v: u32)
    ensures
        v == ocr_of(d),
{
    (d[0] as u32) * 0x100_0000 + (d[1] as u32) * 0x1_0000 + (d[2] as u32) * 0x100 + d[3] as u32
}

fn bus_step(s: &InitState, ok: bool) -> (t: InitState)
    requires
        s.wf(),
        s.stage == InitStage::Release || s.stage == InitStage::Clocks || s.stage == InitStage::Select
            || s.stage == InitStage::Close,
    ensures
        t == next_state(*s, InitAnswer::Bus(ok)),
        t.wf(),
        progress(t) < progress(*s),
        t.tries == s.tries,
{
    if !ok {
        stop_at(s, SdCardError::SpiError)
    } else {
        match s.stage {
            InitStage::Release => move_to(s, InitStage::Clocks),
            InitStage::Clocks => move_to(s, InitStage::Select),
            InitStage::Select => move_to(s, InitStage::Cmd0),
            _ => move_to(s, InitStage::Done),
        }
    }
}

/// What the answer `a` to the step of `s` leads to (see `next_state`).
#[verifier::rlimit(40)]
pub fn init_step(s: &InitState, a: &InitAnswer) -> (t: InitState)
    requires
        s.wf(),
    ensures
        t == next_state(*s, *a),
        t.wf(),
        answer_fits(s.stage, *a) ==> progress(t) < progress(*s),
        t.tries >= s.tries,
{
    match s.stage {
        InitStage::Release | InitStage::Clocks | InitStage::Select | InitStage::Close => match a {
            InitAnswer::Bus(ok) => bus_step(s, *ok),
            _ => *s,
        },
        InitStage::Cmd0 | InitStage::Cmd8 | InitStage::Cmd55 | InitStage::Acmd41 | InitStage::Cmd58
        | InitStage::Cmd16 => match a {
            InitAnswer::Response(Err(e)) => stop_at(s, *e),
            InitAnswer::Response(Ok(resp)) => match s.stage {
                InitStage::Cmd0 => if resp.is_idle() {
                    move_to(s, InitStage::Cmd8)
                } else {
                    give_up_at(s)
                },
                InitStage::Cmd8 => InitState {
                    stage: InitStage::Cmd55,
                    v2: resp.is_valid() && !resp.has_error(),
                    ..*s
                },
                InitStage::Cmd55 => if resp.is_valid() {
                    move_to(s, InitStage::Acmd41)
                } else {
                    after_busy(s)
                },
                InitStage::Acmd41 => if resp.is_valid() && !resp.is_idle() {
                    move_to(s, InitStage::Cmd58)
                } else {
                    after_busy(s)
                },
                InitStage::Cmd58 => if resp.is_valid() {
                    let ocr = ocr_value(resp.data);
                    let card_type = if s.v2 {
                        if ocr & 0x40000000 != 0 { SdCardType::Sdhc } else { SdCardType::SdscV2 }
                    } else {
                        SdCardType::SdscV1
                    };
                    InitState { stage: InitStage::Cmd9, info: SdCardInfo { ocr, card_type, ..s.info }, ..*s }
                } else {
                    move_to(s, InitStage::Cmd9)
                },
                _ => if resp.has_error() {
                    give_up_at(s)
                } else {
                    InitState { stage: InitStage::Close, outcome: Ok(()), ..*s }
                },
            },
            _ => *s,
        },
        InitStage::Cmd9 | InitStage::Cmd10 => match a {
            InitAnswer::Response(r) => {
                let readable = match r {
                    Ok(resp) => !resp.has_error(),
                    Err(_) => false,
                };
                match s.stage {
                    InitStage::Cmd9 => if readable { move_to(s, InitStage::CsdData) } else { move_to(s, InitStage::Cmd10) },
                    _ => if readable { move_to(s, InitStage::CidData) } else { after_regs(s) },
                }
            },
            _ => *s,
        },
        InitStage::CsdData => match a {
            InitAnswer::Data(Ok(csd)) => {
                let capacity_sectors = capacity_of_csd(s.info.card_type, csd);
                InitState { stage: InitStage::Cmd10, info: SdCardInfo { csd: *csd, capacity_sectors, ..s.info }, ..*s }
            },
            InitAnswer::Data(Err(_)) => move_to(s, InitStage::Cmd10),
            _ => *s,
        },
        InitStage::CidData => match a {
            InitAnswer::Data(Ok(cid)) => after_regs(&InitState { info: SdCardInfo { cid: *cid, ..s.info }, ..*s }),
            InitAnswer::Data(Err(_)) => after_regs(s),
            _ => *s,
        },
        InitStage::Done => *s,
    }
}


/// An answer that reports a failed bus call.
pub open spec fn bus_failure(a: InitAnswer) -> bool {
    ||| a == InitAnswer::Bus(false)
    ||| a matches InitAnswer::Response(Err(e)) && e == SdCardError::SpiError
    ||| a matches InitAnswer::Data(Err(e)) && e == SdCardError::SpiError
}

proof fn lemma_outcome_without_failures(s0: InitState, answers: Seq<InitAnswer>)
    requires
        s0.outcome != Err::<(), SdCardError>(SdCardError::SpiError),
        forall|i: int| 0 <= i < answers.len() ==> !bus_failure(#[trigger] answers[i]),
    ensures
        run_state(s0, answers).outcome != Err::<(), SdCardError>(SdCardError::SpiError),
    decreases answers.len(),
{
    if answers.len() > 0 {
        let d = answers.drop_last();
        assert forall|i: int| 0 <= i < d.len() implies !bus_failure(#[trigger] d[i]) by {
            assert(d[i] == answers[i]);
        }
        lemma_outcome_without_failures(s0, d);
        assert(!bus_failure(answers[answers.len() - 1]));
    }
}

/// An initialization over a bus none of whose calls failed does not end in
/// `SpiError`.
pub proof fn law_no_bus_failure_no_spi_error(
    s0: InitState,
    answers: Seq<InitAnswer>,
    cuts: Seq<int>,
    ops: Seq<(u8, Seq<u8>, Seq<u8>)>,
    oks: Seq<bool>,
)
    requires
        init_transcript(s0, answers, cuts, ops, oks),
        s0.outcome is Ok,
        forall|k: int| 0 <= k < oks.len() ==> #[trigger] oks[k],
    ensures
        run_state(s0, answers).outcome != Err::<(), SdCardError>(SdCardError::SpiError),
{
    assert forall|i: int| 0 <= i < answers.len() implies !bus_failure(#[trigger] answers[i]) by {
        assert(stretch_fits(s0, answers, cuts, ops, oks, i));
        let seg = oks.subrange(cuts[i], cuts[i + 1]);
        assert forall|k: int| 0 <= k < seg.len() implies #[trigger] seg[k] by {
            assert(seg[k] == oks[cuts[i] + k]);
        }
        assert(seg.last() == seg[seg.len() - 1]);
        reveal(step_exchange);
    }
    lemma_outcome_without_failures(s0, answers);
}

} // verus!
