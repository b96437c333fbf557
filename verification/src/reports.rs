//! What the shell's status commands compute from the figures the kernel
//! hands them: heap and configuration reports, framebuffer facts, the
//! outcome of a system call, and numbers written out in decimal.
use vstd::prelude::*;
use crate::graphics::SimpleFramebuffer;
use crate::syscall::SysCallResult;

verus! {

/// The decimal digits of `n`, most significant first, as ASCII bytes,
/// with no leading zero.
pub open spec fn decimal(n: nat) -> Seq<u8>
    decreases n,
{
    if n < 10 {
        seq![(48 + n) as u8]
    } else {
        decimal(n / 10).push((48 + n % 10) as u8)
    }
}

/// The number ASCII digits `d` spell.
pub open spec fn digits_value(d: Seq<u8>) -> int
    decreases d.len(),
{
    if d.len() == 0 {
        0
    } else {
        digits_value(d.drop_last()) * 10 + (d.last() - 48)
    }
}

/// Writing a number in decimal and reading it back gives the number; the
/// digits are ASCII digits and only zero itself begins with `0`.
pub proof fn law_decimal_round_trip(n: nat)
    ensures
        digits_value(decimal(n)) == n,
        decimal(n).len() >= 1,
        forall|i: int| 0 <= i < decimal(n).len() ==> 48 <= #[trigger] decimal(n)[i] <= 57,
        decimal(n)[0] == 48 ==> n == 0,
    decreases n,
{
    if n < 10 {
        assert(decimal(n).drop_last() =~= Seq::<u8>::empty());
        assert(digits_value(Seq::<u8>::empty()) == 0);
        assert(decimal(n).last() == (48 + n) as u8);
        assert(((48 + n) as u8) as int == 48 + n);
        assert(digits_value(decimal(n)) == digits_value(decimal(n).drop_last()) * 10 + (decimal(n).last() - 48));
    } else {
        law_decimal_round_trip(n / 10);
        let d = decimal(n / 10);
        assert(decimal(n).drop_last() =~= d);
        assert(decimal(n).last() == (48 + n % 10) as u8);
        assert(n == (n / 10) * 10 + n % 10);
        assert forall|i: int| 0 <= i < decimal(n).len() implies 48 <= #[trigger] decimal(n)[i] <= 57 by {
            if i < d.len() {
                assert(decimal(n)[i] == d[i]);
            }
        }
    }
}

/// The decimal digits of `n`.
pub fn decimal_digits(n: usize) -> (r: Vec<u8>)
    ensures
        r@ == decimal(n as nat),
    decreases n,
{
    if n < 10 {
        let mut v: Vec<u8> = Vec::new();
        v.push((48 + n) as u8);
        assert(v@ =~= decimal(n as nat));
        v
    } else {
        let mut v = decimal_digits(n / 10);
        v.push((48 + n % 10) as u8);
        v
    }
}

/// How worried the heap report is.
#[derive(Debug, Clone, Copy, PartialEq, Eq, Structural)]
pub enum HeapWarning {
    Normal,
    VeryHigh,
    Exhausted,
}

/// The heap figures, in KiB, with the share in use.
#[derive(Debug, Clone, Copy, PartialEq, Eq, Structural)]
pub struct HeapReport {
    pub total_kb: usize,
    pub used_kb: usize,
    pub available_kb: usize,
    pub usage_percent: usize,
    pub warning: HeapWarning,
}

/// Percent of `total` that `used` is, rounded down; nothing of nothing is 0.
pub open spec fn usage_percent(used: int, total: int) -> int {
    if total > 0 {
        used * 100 / total
    } else {
        0
    }
}

/// The report on a heap of `total` bytes with `used` in use and
/// `available` free: an exhausted heap is warned of first, then one more
/// than 90 percent used.
pub fn cmd_heap(used: usize, total: usize, available: usize) -> (r: HeapReport)
    requires
        used * 100 <= usize::MAX,
    ensures
        r.total_kb == total / 1024,
        r.used_kb == used / 1024,
        r.available_kb == available / 1024,
        r.usage_percent == usage_percent(used as int, total as int),
        r.warning == (if available == 0 {
            HeapWarning::Exhausted
        } else if usage_percent(used as int, total as int) > 90 {
            HeapWarning::VeryHigh
        } else {
            HeapWarning::Normal
        }),
{
    let usage_percent = if total > 0 { (used * 100) / total } else { 0 };
    let warning = if available == 0 {
        HeapWarning::Exhausted
    } else if usage_percent > 90 {
        HeapWarning::VeryHigh
    } else {
        HeapWarning::Normal
    };
    HeapReport {
        total_kb: total / 1024,
        used_kb: used / 1024,
        available_kb: available / 1024,
        usage_percent,
        warning,
    }
}

/// How the kernel's allocators were arranged for the memory found.
#[derive(Debug, Clone, Copy, PartialEq, Eq, Structural)]
pub enum AllocatorMode {
    SimpleHeap,
    TwoTier,
    Hybrid,
}

/// The description of each allocator mode.
pub open spec fn allocator_mode_text(e: AllocatorMode) -> Seq<char> {
    match e {
        AllocatorMode::SimpleHeap => "Simple Heap (low memory)"@,
        AllocatorMode::TwoTier => "Two-Tier (Buddy + Slab)"@,
        AllocatorMode::Hybrid => "Hybrid (adaptive)"@,
    }
}

impl AllocatorMode {
    pub fn description(&self) -> (s: &'static str)
        ensures
            s@ == allocator_mode_text(*self),
    {
        match self {
            AllocatorMode::SimpleHeap => "Simple Heap (low memory)",
            AllocatorMode::TwoTier => "Two-Tier (Buddy + Slab)",
            AllocatorMode::Hybrid => "Hybrid (adaptive)",
        }
    }
}

/// What the memory manager reports of itself.
#[derive(Debug, Clone, Copy, PartialEq, Eq, Structural)]
pub struct MemoryStats {
    pub detected_ram_size: usize,
    pub regions_detected: usize,
    pub allocator_mode: AllocatorMode,
    pub heap_size: usize,
    pub heap_used: usize,
}

/// The configuration report: RAM in MiB, heap in KiB with its use in
/// percent (none for an empty heap), and the buffer sizes chosen.
#[derive(Debug, Clone, Copy, PartialEq, Eq, Structural)]
pub struct ConfigReport {
    pub ram_mb: usize,
    pub regions: usize,
    pub allocator_mode: AllocatorMode,
    pub heap_kb: usize,
    pub heap_used_kb: usize,
    pub heap_utilization: Option<usize>,
    pub sector_buffer: usize,
    pub file_buffer_kb: usize,
    pub command_buffer: usize,
    pub max_file_kb: usize,
}

/// The configuration report from the memory manager's figures and the
/// buffer sizes it picked.
pub fn cmd_config(
    stats: &MemoryStats,
    sector_buffer: usize,
    file_buffer: usize,
    command_buffer: usize,
    max_file_size: usize,
) -> (r: ConfigReport)
    requires
        stats.heap_used * 100 <= usize::MAX,
    ensures
        r.ram_mb == stats.detected_ram_size / 1048576,
        r.regions == stats.regions_detected,
        r.allocator_mode == stats.allocator_mode,
        r.heap_kb == stats.heap_size / 1024,
        r.heap_used_kb == stats.heap_used / 1024,
        r.heap_utilization == (if stats.heap_size > 0 {
            Some(usage_percent(stats.heap_used as int, stats.heap_size as int) as usize)
        } else {
            None::<usize>
        }),
        r.sector_buffer == sector_buffer,
        r.file_buffer_kb == file_buffer / 1024,
        r.command_buffer == command_buffer,
        r.max_file_kb == max_file_size / 1024,
{
    let heap_utilization = if stats.heap_size > 0 {
        Some((stats.heap_used * 100) / stats.heap_size)
    } else {
        None
    };
    ConfigReport {
        ram_mb: stats.detected_ram_size / 1048576,
        regions: stats.regions_detected,
        allocator_mode: stats.allocator_mode,
        heap_kb: stats.heap_size / 1024,
        heap_used_kb: stats.heap_used / 1024,
        heap_utilization,
        sector_buffer,
        file_buffer_kb: file_buffer / 1024,
        command_buffer,
        max_file_kb: max_file_size / 1024,
    }
}

/// The framebuffer facts the graphics report shows.
#[derive(Debug, Clone, Copy, PartialEq, Eq, Structural)]
pub struct GraphicsInfo {
    pub width: u32,
    pub height: u32,
    pub bpp: u32,
    pub size_kb: usize,
    pub total_pixels: usize,
}

/// The graphics report: nothing when there is no framebuffer, else its
/// geometry, its size in KiB and its number of pixels.
pub fn cmd_graphics(fb: Option<&SimpleFramebuffer>) -> (r: Option<GraphicsInfo>)
    requires
        fb matches Some(f) ==> f.wf(),
    ensures
        fb is None ==> r is None,
        fb matches Some(f) ==> r == Some(GraphicsInfo {
            width: f.spec_width(),
            height: f.spec_height(),
            bpp: f.spec_bpp(),
            size_kb: (f.spec_size() / 1024) as usize,
            total_pixels: (f.spec_width() * f.spec_height()) as usize,
        }),
{
    match fb {
        None => None,
        Some(f) => {
            let (width, height) = f.get_dimensions();
            let (_addr, size) = f.get_framebuffer_info();
            Some(GraphicsInfo {
                width,
                height,
                bpp: f.bpp(),
                size_kb: size / 1024,
                total_pixels: width as usize * height as usize,
            })
        },
    }
}

/// What a shell command makes of a system call's result: success, or the
/// error "Syscall failed".
pub fn syscall_outcome(result: &SysCallResult) -> (r: Result<(), &'static str>)
    ensures
        result is Success ==> r is Ok,
        result is Error ==> r == Err::<(), &'static str>("Syscall failed"),
{
    match result {
        SysCallResult::Success(_) => Ok(()),
        SysCallResult::Error(_) => Err("Syscall failed"),
    }
}

/// The colours of the pixel test, one for each column it paints.
pub open spec fn test_colors() -> Seq<u32> {
    seq![0xFF0000FFu32, 0x00FF00FFu32, 0x0000FFFFu32, 0xFFFF00FFu32, 0xFF00FFFFu32, 0x00FFFFFFu32, 0xFFFFFFFFu32]
}

/// The left edges and colours of the test's three rectangles, each 120 by
/// 50 pixels from row 300.
pub open spec fn test_rects() -> Seq<(u32, u32)> {
    seq![(50u32, 0xFF0000FFu32), (220u32, 0x00FF00FFu32), (390u32, 0x0000FFFFu32)]
}

/// The points of the boundary test: far off the screen, the last pixel of
/// a 640 by 480 screen, and just past it.
pub open spec fn boundary_points() -> Seq<(u32, u32)> {
    seq![(1000u32, 1000u32), (639u32, 479u32), (640u32, 480u32)]
}

/// Which of the test's fourteen steps succeed on a `w` by `h` screen: the
/// clearing, seven pixels along row 200 every 80 columns, three rectangles
/// and three boundary points; a step succeeds when its point or corner is
/// on the screen.
pub open spec fn graphics_test_outcomes(w: int, h: int) -> Seq<bool> {
    seq![true] + Seq::new(7, |i: int| i * 80 < w && 200 < h) + Seq::new(
        3,
        |j: int| test_rects()[j].0 < w && 300 < h,
    ) + Seq::new(3, |k: int| boundary_points()[k].0 < w && boundary_points()[k].1 < h)
}

/// How many of `s` are false.
pub open spec fn count_false(s: Seq<bool>) -> nat
    decreases s.len(),
{
    if s.len() == 0 {
        0
    } else {
        count_false(s.drop_last()) + if s.last() {
            0nat
        } else {
            1nat
        }
    }
}

/// The failures the test counts on a `w` by `h` screen: each pixel or
/// rectangle refused, and the last on-screen pixel refused; the two points
/// off the screen are meant to be refused.
pub open spec fn graphics_test_failures(w: int, h: int) -> nat {
    count_false(graphics_test_outcomes(w, h).subrange(1, 11)) + if graphics_test_outcomes(w, h)[12] {
        0nat
    } else {
        1nat
    }
}

/// Whether `(x, y)` is in the `j`th test rectangle (120 by 50 from row 300).
pub open spec fn in_test_rect(x: int, y: int, j: int) -> bool {
    test_rects()[j].0 <= x < test_rects()[j].0 + 120 && 300 <= y < 350
}

/// Whether `(x, y)` is the `k`th boundary point.
pub open spec fn is_boundary_point(x: int, y: int, k: int) -> bool {
    x == boundary_points()[k].0 && y == boundary_points()[k].1
}

/// The screen after the first `i` test pixels on a black screen.
pub open spec fn after_pixels(x: int, y: int, i: int) -> u32 {
    if y == 200 && x % 80 == 0 && 0 <= x < 80 * i {
        test_colors()[x / 80]
    } else {
        0
    }
}

/// The screen after the first `j` test rectangles.
pub open spec fn after_rects(x: int, y: int, j: int) -> u32 {
    if j >= 1 && in_test_rect(x, y, 0) {
        test_rects()[0].1
    } else if j >= 2 && in_test_rect(x, y, 1) {
        test_rects()[1].1
    } else if j >= 3 && in_test_rect(x, y, 2) {
        test_rects()[2].1
    } else {
        after_pixels(x, y, 7)
    }
}

/// The screen after the first `k` boundary points.
pub open spec fn after_points(x: int, y: int, k: int) -> u32 {
    if (k >= 1 && is_boundary_point(x, y, 0)) || (k >= 2 && is_boundary_point(x, y, 1)) || (k >= 3
        && is_boundary_point(x, y, 2)) {
        0xFFFFFFFFu32
    } else {
        after_rects(x, y, 3)
    }
}

/// What the drawing test leaves at pixel `(x, y)` of the screen: the
/// rectangles in their colours, the seven test pixels along row 200, the
/// boundary points in white, black elsewhere.
pub open spec fn test_pattern(x: int, y: int) -> u32 {
    if in_test_rect(x, y, 0) {
        0xFF0000FFu32
    } else if in_test_rect(x, y, 1) {
        0x00FF00FFu32
    } else if in_test_rect(x, y, 2) {
        0x0000FFFFu32
    } else if y == 200 && x % 80 == 0 && 0 <= x <= 480 {
        test_colors()[x / 80]
    } else if is_boundary_point(x, y, 0) || is_boundary_point(x, y, 1) || is_boundary_point(x, y, 2) {
        0xFFFFFFFFu32
    } else {
        0
    }
}

proof fn lemma_pattern_complete(x: int, y: int)
    ensures
        after_points(x, y, 3) == test_pattern(x, y),
{
    assert(80 * 7 == 560);
}

/// The steps of the graphics test, in order, and the failures counted.
pub struct GraphicsTestReport {
    pub outcomes: Vec<bool>,
    pub failures: usize,
}

/// Why the graphics test did not pass.
pub enum GraphicsTestError {
    NotAvailable,
    Failed(GraphicsTestReport),
}

fn test_color(i: usize) -> (c: u32)
    requires
        i < 7,
    ensures
        c == test_colors()[i as int],
{
    if i == 0 {
        0xFF0000FF
    } else if i == 1 {
        0x00FF00FF
    } else if i == 2 {
        0x0000FFFF
    } else if i == 3 {
        0xFFFF00FF
    } else if i == 4 {
        0xFF00FFFF
    } else if i == 5 {
        0x00FFFFFF
    } else {
        0xFFFFFFFF
    }
}

fn test_rect(j: usize) -> (r: (u32, u32))
    requires
        j < 3,
    ensures
        r == test_rects()[j as int],
{
    if j == 0 {
        (50, 0xFF0000FF)
    } else if j == 1 {
        (220, 0x00FF00FF)
    } else {
        (390, 0x0000FFFF)
    }
}

fn boundary_point(k: usize) -> (p: (u32, u32))
    requires
        k < 3,
    ensures
        p == boundary_points()[k as int],
{
    if k == 0 {
        (1000, 1000)
    } else if k == 1 {
        (639, 479)
    } else {
        (640, 480)
    }
}

proof fn lemma_count_false_push(s: Seq<bool>, b: bool)
    ensures
        count_false(s.push(b)) == count_false(s) + if b {
            0nat
        } else {
            1nat
        },
{
    assert(s.push(b).drop_last() =~= s);
}

/// Runs the drawing test on framebuffer `fb`: clears it black, paints the
/// seven test pixels, fills the three rectangles and tries the three
/// boundary points in white, recording which steps succeeded; the screen
/// then shows `test_pattern`.
fn run_graphics_test(fb: &mut SimpleFramebuffer) -> (r: (Vec<bool>, usize))
    requires
        old(fb).wf(),
    ensures
        final(fb).wf(),
        final(fb).spec_width() == old(fb).spec_width(),
        final(fb).spec_height() == old(fb).spec_height(),
        final(fb).spec_addr() == old(fb).spec_addr(),
        final(fb).spec_size() == old(fb).spec_size(),
        final(fb).spec_bpp() == old(fb).spec_bpp(),
        r.0@ == graphics_test_outcomes(old(fb).spec_width() as int, old(fb).spec_height() as int),
        r.1 == graphics_test_failures(old(fb).spec_width() as int, old(fb).spec_height() as int),
        forall|px: int, py: int| 0 <= px < old(fb).spec_width() && 0 <= py < old(fb).spec_height()
            ==> #[trigger] final(fb).pixel(px, py) == test_pattern(px, py),
{
    let ghost w = fb.spec_width() as int;
    let ghost h = fb.spec_height() as int;
    let ghost all = graphics_test_outcomes(w, h);
    let mut outcomes: Vec<bool> = Vec::new();
    let mut failures: usize = 0;
    fb.clear(0x00000000);
    assert forall|px: int, py: int| 0 <= px < w && 0 <= py < h implies #[trigger] fb.pixel(px, py) == after_pixels(px, py, 0) by {
    }
    outcomes.push(true);
    assert(outcomes@ =~= all.subrange(0, 1));
    assert(outcomes@.subrange(1, 1) =~= Seq::<bool>::empty());
    let mut i: usize = 0;
    while i < 7
        invariant
            fb.wf(),
            fb.spec_width() == w,
            fb.spec_height() == h,
            fb.spec_addr() == old(fb).spec_addr(),
            fb.spec_size() == old(fb).spec_size(),
            fb.spec_bpp() == old(fb).spec_bpp(),
            w == old(fb).spec_width(),
            h == old(fb).spec_height(),
            all == graphics_test_outcomes(w, h),
            i <= 7,
            outcomes@ == all.subrange(0, 1 + i as int),
            failures == count_false(outcomes@.subrange(1, outcomes@.len() as int)),
            failures <= i,
            forall|px: int, py: int| 0 <= px < w && 0 <= py < h ==> #[trigger] fb.pixel(px, py) == after_pixels(px, py, i as int),
        decreases 7 - i,
    {
        let ghost before = *fb;
        let ok = fb.set_pixel((i * 80) as u32, 200, test_color(i)).is_ok();
        assert forall|px: int, py: int| 0 <= px < w && 0 <= py < h implies #[trigger] fb.pixel(px, py) == after_pixels(
            px,
            py,
            i + 1,
        ) by {
            assert(before.pixel(px, py) == after_pixels(px, py, i as int));
            if py == 200 && px % 80 == 0 && 0 <= px < 80 * (i + 1) && !(px < 80 * i) {
                assert(px == 80 * i);
                assert(px / 80 == i);
            }
        }
        proof {
            lemma_count_false_push(outcomes@.subrange(1, outcomes@.len() as int), ok);
            assert(outcomes@.push(ok).subrange(1, outcomes@.len() as int + 1) =~= outcomes@.subrange(
                1,
                outcomes@.len() as int,
            ).push(ok));
        }
        outcomes.push(ok);
        if !ok {
            failures = failures + 1;
        }
        i = i + 1;
        assert(outcomes@ =~= all.subrange(0, 1 + i as int));
    }
    assert forall|px: int, py: int| 0 <= px < w && 0 <= py < h implies #[trigger] fb.pixel(px, py) == after_rects(px, py, 0) by {
        assert(fb.pixel(px, py) == after_pixels(px, py, 7));
    }
    let mut j: usize = 0;
    while j < 3
        invariant
            fb.wf(),
            fb.spec_width() == w,
            fb.spec_height() == h,
            fb.spec_addr() == old(fb).spec_addr(),
            fb.spec_size() == old(fb).spec_size(),
            fb.spec_bpp() == old(fb).spec_bpp(),
            all == graphics_test_outcomes(w, h),
            j <= 3,
            outcomes@ == all.subrange(0, 8 + j as int),
            failures == count_false(outcomes@.subrange(1, outcomes@.len() as int)),
            failures <= 7 + j,
            forall|px: int, py: int| 0 <= px < w && 0 <= py < h ==> #[trigger] fb.pixel(px, py) == after_rects(px, py, j as int),
        decreases 3 - j,
    {
        let (x, color) = test_rect(j);
        let ghost before = *fb;
        let ok = fb.draw_rect(x, 300, 120, 50, color).is_ok();
        assert forall|px: int, py: int| 0 <= px < w && 0 <= py < h implies #[trigger] fb.pixel(px, py) == after_rects(
            px,
            py,
            j + 1,
        ) by {
            assert(before.pixel(px, py) == after_rects(px, py, j as int));
        }
        proof {
            lemma_count_false_push(outcomes@.subrange(1, outcomes@.len() as int), ok);
            assert(outcomes@.push(ok).subrange(1, outcomes@.len() as int + 1) =~= outcomes@.subrange(
                1,
                outcomes@.len() as int,
            ).push(ok));
        }
        outcomes.push(ok);
        if !ok {
            failures = failures + 1;
        }
        j = j + 1;
        assert(outcomes@ =~= all.subrange(0, 8 + j as int));
    }
    assert(outcomes@.subrange(1, 11) =~= all.subrange(1, 11));
    assert forall|px: int, py: int| 0 <= px < w && 0 <= py < h implies #[trigger] fb.pixel(px, py) == after_points(px, py, 0) by {
        assert(fb.pixel(px, py) == after_rects(px, py, 3));
    }
    let mut k: usize = 0;
    while k < 3
        invariant
            fb.wf(),
            fb.spec_width() == w,
            fb.spec_height() == h,
            fb.spec_addr() == old(fb).spec_addr(),
            fb.spec_size() == old(fb).spec_size(),
            fb.spec_bpp() == old(fb).spec_bpp(),
            all == graphics_test_outcomes(w, h),
            k <= 3,
            outcomes@ == all.subrange(0, 11 + k as int),
            failures == count_false(all.subrange(1, 11)) + if k > 1 && !all[12] {
                1nat
            } else {
                0nat
            },
            count_false(all.subrange(1, 11)) <= 10,
            forall|px: int, py: int| 0 <= px < w && 0 <= py < h ==> #[trigger] fb.pixel(px, py) == after_points(px, py, k as int),
        decreases 3 - k,
    {
        let (x, y) = boundary_point(k);
        let ghost before = *fb;
        let ok = fb.set_pixel(x, y, 0xFFFFFFFF).is_ok();
        assert forall|px: int, py: int| 0 <= px < w && 0 <= py < h implies #[trigger] fb.pixel(px, py) == after_points(
            px,
            py,
            k + 1,
        ) by {
            assert(before.pixel(px, py) == after_points(px, py, k as int));
        }
        outcomes.push(ok);
        if !ok && k == 1 {
            failures = failures + 1;
        }
        k = k + 1;
        assert(outcomes@ =~= all.subrange(0, 11 + k as int));
    }
    assert(outcomes@ =~= all);
    assert forall|px: int, py: int| 0 <= px < w && 0 <= py < h implies #[trigger] fb.pixel(px, py) == test_pattern(px, py) by {
        assert(fb.pixel(px, py) == after_points(px, py, 3));
        lemma_pattern_complete(px, py);
    }
    (outcomes, failures)
}

/// The drawing test on the screen, if there is one: no screen is
/// `NotAvailable`; otherwise the test runs, leaves `test_pattern` on the
/// screen, and passes when it counts no failure, the report giving each
/// step's success.
pub fn cmd_graphics_test(screen: &mut Option<SimpleFramebuffer>) -> (r: Result<GraphicsTestReport, GraphicsTestError>)
    requires
        *old(screen) matches Some(f) ==> f.wf(),
    ensures
        *old(screen) is None ==> *final(screen) is None && r matches Err(GraphicsTestError::NotAvailable),
        *old(screen) matches Some(f) ==> *final(screen) matches Some(g) && {
            &&& g.wf()
            &&& g.spec_width() == f.spec_width()
            &&& g.spec_height() == f.spec_height()
            &&& g.spec_addr() == f.spec_addr()
            &&& g.spec_size() == f.spec_size()
            &&& g.spec_bpp() == f.spec_bpp()
            &&& forall|px: int, py: int| 0 <= px < f.spec_width() && 0 <= py < f.spec_height() ==> #[trigger] g.pixel(px, py)
                == test_pattern(px, py)
            &&& graphics_test_failures(f.spec_width() as int, f.spec_height() as int) == 0 ==> (r matches Ok(rep)
                && rep.outcomes@ == graphics_test_outcomes(f.spec_width() as int, f.spec_height() as int)
                && rep.failures == 0)
            &&& graphics_test_failures(f.spec_width() as int, f.spec_height() as int) > 0 ==> (r matches Err(
                GraphicsTestError::Failed(rep),
            ) && rep.outcomes@ == graphics_test_outcomes(f.spec_width() as int, f.spec_height() as int)
                && rep.failures == graphics_test_failures(f.spec_width() as int, f.spec_height() as int))
        },
{
    match screen.take() {
        None => Err(GraphicsTestError::NotAvailable),
        Some(mut fb) => {
            let (outcomes, failures) = run_graphics_test(&mut fb);
            *screen = Some(fb);
            let report = GraphicsTestReport { outcomes, failures };
            if failures == 0 {
                Ok(report)
            } else {
                Err(GraphicsTestError::Failed(report))
            }
        },
    }
}

} // verus!
