//! How busy the graphics card is. The first card that is found is watched: one of AMD through the
//! kernel's files, else one of NVIDIA.

use vstd::prelude::*;
use crate::text::{self, chars_before, chars_of, numeral_up_to, trim};

verus! {

/// How often the card is read, in seconds.
pub const DEFAULT_POLL_INTERVAL_SECS: u32 = 3;

/// From this usage on, in percent, the card counts as busy. Higher than for processors: games and
/// renderers keep a card busy for long.
pub const GPU_HIGH_USAGE_THRESHOLD: u32 = 90;

/// Where the kernel lists graphics cards.
pub const DRM_CLASS_PATH: &'static str = "/sys/class/drm";

/// What is known of the graphics card.
#[derive(Debug)]
pub struct GpuSnapshot {
    pub available: bool,
    /// In percent.
    pub gpu_usage: Option<u32>,
    /// In bytes.
    pub vram_used: Option<u64>,
    /// In bytes.
    pub vram_total: Option<u64>,
    /// In thousandths of a degree Celsius.
    pub temperature_millidegrees: Option<u64>,
    pub clock_mhz: Option<u64>,
    /// In millionths of a watt.
    pub power_microwatts: Option<u64>,
    pub device_name: Option<String>,
}

/// What a [`GpuSnapshot`] holds.
pub struct GpuView {
    pub available: bool,
    pub gpu_usage: Option<u32>,
    pub vram_used: Option<u64>,
    pub vram_total: Option<u64>,
    pub temperature_millidegrees: Option<u64>,
    pub clock_mhz: Option<u64>,
    pub power_microwatts: Option<u64>,
    pub device_name: Option<Seq<char>>,
}

impl GpuView {
    /// Nothing is known.
    pub open spec fn nothing() -> GpuView {
        GpuView {
            available: false,
            gpu_usage: None,
            vram_used: None,
            vram_total: None,
            temperature_millidegrees: None,
            clock_mhz: None,
            power_microwatts: None,
            device_name: None,
        }
    }
}

impl View for GpuSnapshot {
    type V = GpuView;

    open spec fn view(&self) -> GpuView {
        GpuView {
            available: self.available,
            gpu_usage: self.gpu_usage,
            vram_used: self.vram_used,
            vram_total: self.vram_total,
            temperature_millidegrees: self.temperature_millidegrees,
            clock_mhz: self.clock_mhz,
            power_microwatts: self.power_microwatts,
            device_name: chars_of(self.device_name),
        }
    }
}

impl Default for GpuSnapshot {
    fn default() -> (snapshot: Self)
        ensures
            snapshot@ == GpuView::nothing(),
    {
        GpuSnapshot {
            available: false,
            gpu_usage: None,
            vram_used: None,
            vram_total: None,
            temperature_millidegrees: None,
            clock_mhz: None,
            power_microwatts: None,
            device_name: None,
        }
    }
}

impl GpuSnapshot {
    /// Nothing is known.
    pub fn unknown() -> (snapshot: GpuSnapshot)
        ensures
            snapshot@ == GpuView::nothing(),
    {
        GpuSnapshot::default()
    }

    /// What is known before the card was read: whether there is one.
    pub fn initial(found: bool) -> (snapshot: GpuSnapshot)
        ensures
            snapshot@ == (GpuView { available: found, ..GpuView::nothing() }),
    {
        let mut snapshot = GpuSnapshot::default();
        snapshot.available = found;
        snapshot
    }

    /// Whether the card is busy.
    pub fn is_gpu_high(&self) -> (yes: bool)
        ensures
            yes == (self@.gpu_usage matches Some(usage) && usage >= GPU_HIGH_USAGE_THRESHOLD),
    {
        match self.gpu_usage {
            Some(usage) => usage >= GPU_HIGH_USAGE_THRESHOLD,
            None => false,
        }
    }

    /// How much of the memory is used, as a fraction: used by total.
    pub fn vram_share(&self) -> (share: Option<(u64, u64)>)
        ensures
            share == (match (self@.vram_used, self@.vram_total) {
                (Some(used), Some(total)) => if total > 0 {
                    Some((used, total))
                } else {
                    None
                },
                _ => None,
            }),
    {
        match (self.vram_used, self.vram_total) {
            (Some(used), Some(total)) => if total > 0 {
                Some((used, total))
            } else {
                None
            },
            _ => None,
        }
    }
}

/// The number that a file of the kernel holds, if it was read and the number is at most `most`.
pub open spec fn file_number(file: Option<Seq<char>>, most: int) -> Option<int> {
    match file {
        Some(content) => numeral_up_to(trim(content), most),
        None => None,
    }
}

/// The text that a file of the kernel holds, if it was read and holds any.
pub open spec fn file_text(file: Option<Seq<char>>) -> Option<Seq<char>> {
    match file {
        Some(content) => if trim(content).len() > 0 {
            Some(trim(content))
        } else {
            None
        },
        None => None,
    }
}

/// The number that a file of the kernel holds.
pub fn read_sysfs_u32(file: &Option<String>) -> (n: Option<u32>)
    ensures
        n is Some <==> file_number(chars_of(*file), u32::MAX as int) is Some,
        n is Some ==> file_number(chars_of(*file), u32::MAX as int) == Some(n->0 as int),
{
    match file {
        Some(content) => text::parse_u32(text::trimmed(content.as_str()).as_str()),
        None => None,
    }
}

/// The number that a file of the kernel holds.
pub fn read_sysfs_u64(file: &Option<String>) -> (n: Option<u64>)
    ensures
        n is Some <==> file_number(chars_of(*file), u64::MAX as int) is Some,
        n is Some ==> file_number(chars_of(*file), u64::MAX as int) == Some(n->0 as int),
{
    match file {
        Some(content) => text::parse_u64(text::trimmed(content.as_str()).as_str()),
        None => None,
    }
}

/// The text that a file of the kernel holds.
pub fn read_sysfs_string(file: &Option<String>) -> (t: Option<String>)
    ensures
        chars_of(t) == file_text(chars_of(*file)),
{
    match file {
        Some(content) => {
            let trimmed = text::trimmed(content.as_str());
            if text::to_chars(trimmed.as_str()).len() == 0 {
                None
            } else {
                Some(trimmed)
            }
        },
        None => None,
    }
}

/// A text without the prefixes `0x` before it.
pub open spec fn without_prefixes(s: Seq<char>) -> Seq<char>
    decreases s.len(),
{
    if s.len() >= 2 && s[0] == '0' && s[1] == 'x' {
        without_prefixes(s.skip(2))
    } else {
        s
    }
}

fn strip_prefixes(s: &str) -> (t: String)
    ensures
        t@ == without_prefixes(s@),
{
    let chars = text::to_chars(s);
    let mut i: usize = 0;
    proof {
        assert(s@.skip(0) =~= s@);
    }
    while chars.len() - i >= 2 && chars[i] == '0' && chars[i + 1] == 'x'
        invariant
            i <= chars@.len(),
            chars@ == s@,
            without_prefixes(s@.skip(i as int)) == without_prefixes(s@),
        decreases chars@.len() - i,
    {
        proof {
            assert(s@.skip(i as int).skip(2) =~= s@.skip(i + 2));
        }
        i += 2;
    }
    proof {
        let rest = s@.skip(i as int);
        assert(rest == without_prefixes(rest));
        assert(chars@.subrange(i as int, chars@.len() as int) =~= rest);
    }
    text::slice(&chars, i, chars.len())
}

/// The name of a card of AMD: what it is sold as, else who made it and what it is, by number.
pub open spec fn device_name(product: Option<Seq<char>>, vendor: Option<Seq<char>>, device: Option<Seq<char>>) -> Option<
    Seq<char>,
> {
    match (file_text(product), file_text(vendor), file_text(device)) {
        (Some(name), _, _) => Some(name),
        (None, Some(v), Some(d)) => Some(
            "GPU ["@ + without_prefixes(v) + ":"@ + without_prefixes(d) + "]"@,
        ),
        _ => None,
    }
}

/// The name of a card of AMD, out of the files `product_name`, `vendor` and `device`.
pub fn read_device_name(product: &Option<String>, vendor: &Option<String>, device: &Option<String>) -> (name: Option<
    String,
>)
    ensures
        chars_of(name) == device_name(chars_of(*product), chars_of(*vendor), chars_of(*device)),
{
    match read_sysfs_string(product) {
        Some(name) => {
            return Some(name);
        },
        None => {},
    }
    match (read_sysfs_string(vendor), read_sysfs_string(device)) {
        (Some(v), Some(d)) => {
            let maker = text::joined("GPU [", strip_prefixes(v.as_str()).as_str());
            let opened = text::joined(maker.as_str(), ":");
            let numbered = text::joined(opened.as_str(), strip_prefixes(d.as_str()).as_str());
            Some(text::joined(numbered.as_str(), "]"))
        },
        _ => None,
    }
}

/// An entry among the graphics cards of the kernel.
#[derive(Debug)]
pub struct CardEntry {
    pub name: String,
    /// The name of the driver that its device is bound to, if the device is there.
    pub driver: Option<String>,
}

/// Whether a name is that of a card and not of one of its connectors.
pub open spec fn card_name(name: Seq<char>) -> bool {
    "card"@.is_prefix_of(name) && !name.contains('-')
}

/// Whether an entry is a card of AMD.
pub open spec fn amd_card(entry: CardEntry) -> bool {
    card_name(entry.name@) && chars_of(entry.driver) == Some("amdgpu"@)
}

/// Whether an entry is a card of AMD before which none stands by name.
pub open spec fn first_amd_card(entries: Seq<CardEntry>, i: int) -> bool {
    &&& 0 <= i < entries.len()
    &&& amd_card(entries[i])
    &&& forall|j: int|
        0 <= j < entries.len() && amd_card(#[trigger] entries[j]) ==> !chars_before(
            entries[j].name@,
            entries[i].name@,
        )
    &&& forall|j: int|
        0 <= j < i && amd_card(#[trigger] entries[j]) ==> entries[j].name@ != entries[i].name@
}

fn is_amd_card(entry: &CardEntry) -> (yes: bool)
    ensures
        yes == amd_card(*entry),
{
    if !text::has_prefix(entry.name.as_str(), "card") || text::has_char(
        &text::to_chars(entry.name.as_str()),
        '-',
    ) {
        return false;
    }
    match &entry.driver {
        Some(driver) => text::str_eq(driver.as_str(), "amdgpu"),
        None => false,
    }
}

/// The place of the card of AMD that stands first by name.
pub fn discover_amdgpu(entries: &Vec<CardEntry>) -> (found: Option<usize>)
    ensures
        found is None <==> forall|j: int| 0 <= j < entries@.len() ==> !amd_card(#[trigger] entries@[j]),
        found is Some ==> first_amd_card(entries@, found->0 as int),
{
    let mut found: Option<usize> = None;
    let mut i: usize = 0;
    while i < entries.len()
        invariant
            i <= entries@.len(),
            found is None <==> forall|j: int| 0 <= j < i ==> !amd_card(#[trigger] entries@[j]),
            found is Some ==> found->0 < i && first_amd_card(entries@.take(i as int), found->0 as int),
        decreases entries@.len() - i,
    {
        let ghost before = entries@.take(i as int);
        let ghost now = entries@.take(i + 1);
        proof {
            assert forall|j: int| 0 <= j < i implies #[trigger] now[j] == before[j] by {}
            assert(now[i as int] == entries@[i as int]);
        }
        if is_amd_card(&entries[i]) {
            match found {
                None => {
                    proof {
                        text::chars_before_is_asymmetric(entries@[i as int].name@, entries@[i as int].name@);
                    }
                    found = Some(i);
                },
                Some(best) => {
                    proof {
                        assert(now[best as int] == before[best as int]);
                        let b = entries@[best as int].name@;
                        let c = entries@[i as int].name@;
                        text::chars_before_is_asymmetric(c, c);
                        assert forall|j: int|
                            chars_before(c, b) && 0 <= j < now.len() && amd_card(#[trigger] now[j]) implies !chars_before(
                            now[j].name@,
                            c,
                        ) by {
                            if j < i {
                                assert(amd_card(before[j]));
                                if chars_before(now[j].name@, c) {
                                    lemma_before_is_transitive(now[j].name@, c, b);
                                }
                            }
                        }
                    }
                    if text::str_before(entries[i].name.as_str(), entries[best].name.as_str()) {
                        proof {
                            assert forall|j: int| 0 <= j < i && amd_card(#[trigger] now[j]) implies now[j].name@
                                != now[i as int].name@ by {
                                assert(amd_card(before[j]));
                            }
                        }
                        found = Some(i);
                    } else {
                        proof {
                            assert forall|j: int| 0 <= j < now.len() && amd_card(#[trigger] now[j]) implies !chars_before(
                                now[j].name@,
                                now[best as int].name@,
                            ) by {
                                if j < i {
                                    assert(amd_card(before[j]));
                                }
                            }
                            assert forall|j: int| 0 <= j < best && amd_card(#[trigger] now[j]) implies now[j].name@
                                != now[best as int].name@ by {
                                assert(amd_card(before[j]));
                            }
                        }
                    }
                },
            }
        } else {
            proof {
                if found is Some {
                    let best = found->0 as int;
                    assert(now[best] == before[best]);
                    assert forall|j: int| 0 <= j < now.len() && amd_card(#[trigger] now[j]) implies !chars_before(
                        now[j].name@,
                        now[best].name@,
                    ) by {
                        assert(amd_card(before[j]));
                    }
                    assert forall|j: int| 0 <= j < best && amd_card(#[trigger] now[j]) implies now[j].name@
                        != now[best].name@ by {
                        assert(amd_card(before[j]));
                    }
                }
            }
        }
        i += 1;
    }
    proof {
        assert(entries@.take(i as int) =~= entries@);
    }
    found
}

proof fn lemma_before_is_transitive(a: Seq<char>, b: Seq<char>, c: Seq<char>)
    requires
        chars_before(a, b),
        chars_before(b, c),
    ensures
        chars_before(a, c),
{
    text::chars_before_is_weak(a, c, b);
    text::chars_before_is_asymmetric(b, c);
}

/// An entry among the sensors of a device.
#[derive(Debug)]
pub struct SensorEntry {
    pub name: String,
    pub is_dir: bool,
}

/// Whether an entry holds sensors.
pub open spec fn holds_sensors(entry: SensorEntry) -> bool {
    entry.is_dir && "hwmon"@.is_prefix_of(entry.name@)
}

/// The place of the first entry that holds sensors. Their numbers change from boot to boot.
pub fn discover_hwmon(entries: &Vec<SensorEntry>) -> (found: Option<usize>)
    ensures
        match found {
            Some(i) => {
                &&& i < entries@.len()
                &&& holds_sensors(entries@[i as int])
                &&& forall|j: int| 0 <= j < i ==> !holds_sensors(#[trigger] entries@[j])
            },
            None => forall|j: int| 0 <= j < entries@.len() ==> !holds_sensors(#[trigger] entries@[j]),
        },
{
    let mut i: usize = 0;
    while i < entries.len()
        invariant
            i <= entries@.len(),
            forall|j: int| 0 <= j < i ==> !holds_sensors(#[trigger] entries@[j]),
        decreases entries@.len() - i,
    {
        if entries[i].is_dir && text::has_prefix(entries[i].name.as_str(), "hwmon") {
            return Some(i);
        }
        i += 1;
    }
    None
}

/// What the kernel's files of a card of AMD hold, as far as they could be read.
#[derive(Debug)]
pub struct AmdReading {
    pub gpu_busy_percent: Option<String>,
    pub mem_info_vram_used: Option<String>,
    pub mem_info_vram_total: Option<String>,
    /// The sensors, if the card has any.
    pub sensors: Option<SensorReading>,
}

/// What the files of the sensors hold.
#[derive(Debug)]
pub struct SensorReading {
    /// In thousandths of a degree Celsius.
    pub temp1_input: Option<String>,
    /// In hertz.
    pub freq1_input: Option<String>,
    /// In millionths of a watt.
    pub power1_average: Option<String>,
}

/// A number of at most 32 bits, read from a file.
pub open spec fn small_number(file: Option<String>) -> Option<u32> {
    match file_number(chars_of(file), u32::MAX as int) {
        Some(n) => Some(n as u32),
        None => None,
    }
}

/// A number of at most 64 bits, read from a file.
pub open spec fn large_number(file: Option<String>) -> Option<u64> {
    match file_number(chars_of(file), u64::MAX as int) {
        Some(n) => Some(n as u64),
        None => None,
    }
}

/// What a reading of a card of AMD shows.
pub open spec fn amd_shows(reading: AmdReading, name: Option<Seq<char>>) -> GpuView {
    GpuView {
        available: true,
        gpu_usage: match small_number(reading.gpu_busy_percent) {
            Some(usage) => Some(if usage < 100 { usage } else { 100 }),
            None => None,
        },
        vram_used: large_number(reading.mem_info_vram_used),
        vram_total: large_number(reading.mem_info_vram_total),
        temperature_millidegrees: match reading.sensors {
            Some(sensors) => match small_number(sensors.temp1_input) {
                Some(t) => Some(t as u64),
                None => None,
            },
            None => None,
        },
        clock_mhz: match reading.sensors {
            Some(sensors) => match large_number(sensors.freq1_input) {
                Some(hertz) => Some(hertz / 1_000_000),
                None => None,
            },
            None => None,
        },
        power_microwatts: match reading.sensors {
            Some(sensors) => large_number(sensors.power1_average),
            None => None,
        },
        device_name: name,
    }
}

/// What a reading of a card of AMD shows.
pub fn poll_amd(reading: &AmdReading, device_name: &Option<String>) -> (snapshot: GpuSnapshot)
    ensures
        snapshot@ == amd_shows(*reading, chars_of(*device_name)),
{
    let gpu_usage: Option<u32> = match read_sysfs_u32(&reading.gpu_busy_percent) {
        Some(usage) => Some(if usage < 100 { usage } else { 100 }),
        None => None,
    };
    let vram_used: Option<u64> = read_sysfs_u64(&reading.mem_info_vram_used);
    let vram_total: Option<u64> = read_sysfs_u64(&reading.mem_info_vram_total);
    let (temperature, clock, power): (Option<u64>, Option<u64>, Option<u64>) = match &reading.sensors {
        Some(sensors) => {
            let temperature: Option<u64> = match read_sysfs_u32(&sensors.temp1_input) {
                Some(t) => Some(t as u64),
                None => None,
            };
            let clock: Option<u64> = match read_sysfs_u64(&sensors.freq1_input) {
                Some(hertz) => Some(hertz / 1_000_000),
                None => None,
            };
            (temperature, clock, read_sysfs_u64(&sensors.power1_average))
        },
        None => (None, None, None),
    };
    GpuSnapshot {
        available: true,
        gpu_usage,
        vram_used,
        vram_total,
        temperature_millidegrees: temperature,
        clock_mhz: clock,
        power_microwatts: power,
        device_name: device_name.clone(),
    }
}

/// What the driver of NVIDIA tells of a card, as far as it tells it.
#[derive(Clone, Copy, Debug)]
pub struct NvidiaReading {
    /// In percent.
    pub utilization: Option<u32>,
    /// How many bytes are used, and how many there are.
    pub memory: Option<(u64, u64)>,
    /// In degrees Celsius.
    pub temperature: Option<u32>,
    /// In megahertz.
    pub clock: Option<u32>,
    /// In thousandths of a watt.
    pub power: Option<u32>,
}

/// What a reading of a card of NVIDIA shows; there is none when the card could not be reached.
pub open spec fn nvidia_shows(reading: Option<NvidiaReading>, name: Option<Seq<char>>) -> GpuView {
    match reading {
        Some(r) => GpuView {
            available: true,
            gpu_usage: match r.utilization {
                Some(usage) => Some(if usage < 100 { usage } else { 100 }),
                None => None,
            },
            vram_used: match r.memory {
                Some(m) => Some(m.0),
                None => None,
            },
            vram_total: match r.memory {
                Some(m) => Some(m.1),
                None => None,
            },
            temperature_millidegrees: match r.temperature {
                Some(t) => Some((t * 1000) as u64),
                None => None,
            },
            clock_mhz: match r.clock {
                Some(c) => Some(c as u64),
                None => None,
            },
            power_microwatts: match r.power {
                Some(p) => Some((p * 1000) as u64),
                None => None,
            },
            device_name: name,
        },
        None => GpuView { available: true, device_name: name, ..GpuView::nothing() },
    }
}

/// What a reading of a card of NVIDIA shows; there is none when the card could not be reached.
pub fn poll_nvidia(reading: Option<NvidiaReading>, device_name: &Option<String>) -> (snapshot: GpuSnapshot)
    ensures
        snapshot@ == nvidia_shows(reading, chars_of(*device_name)),
{
    let name = device_name.clone();
    match reading {
        Some(r) => GpuSnapshot {
            available: true,
            gpu_usage: match r.utilization {
                Some(usage) => Some(if usage < 100 { usage } else { 100 }),
                None => None,
            },
            vram_used: match r.memory {
                Some(m) => Some(m.0),
                None => None,
            },
            vram_total: match r.memory {
                Some(m) => Some(m.1),
                None => None,
            },
            temperature_millidegrees: match r.temperature {
                Some(t) => Some(t as u64 * 1000),
                None => None,
            },
            clock_mhz: match r.clock {
                Some(c) => Some(c as u64),
                None => None,
            },
            power_microwatts: match r.power {
                Some(p) => Some(p as u64 * 1000),
                None => None,
            },
            device_name: name,
        },
        None => {
            let mut snapshot = GpuSnapshot::default();
            snapshot.available = true;
            snapshot.device_name = name;
            snapshot
        },
    }
}

/// Which card of NVIDIA is watched: the first, if the driver was loaded, counts any card and
/// reaches that one. `count` is how many it counts, if it could tell.
pub fn discover_nvidia(count: Option<u32>, reached: bool) -> (device_index: Option<u32>)
    ensures
        device_index == (if count is Some && count->0 > 0 && reached {
            Some(0u32)
        } else {
            None
        }),
{
    match count {
        Some(n) => if n > 0 && reached {
            Some(0)
        } else {
            None
        },
        None => None,
    }
}

/// A usage of more than everything is never shown.
pub proof fn usage_is_a_percentage(amd: AmdReading, nvidia: Option<NvidiaReading>, name: Option<Seq<char>>)
    ensures
        amd_shows(amd, name).gpu_usage matches Some(usage) ==> usage <= 100,
        nvidia_shows(nvidia, name).gpu_usage matches Some(usage) ==> usage <= 100,
{
}

/// Which card is watched does not depend on the order in which the kernel lists them.
pub proof fn listing_order_does_not_matter(a: Seq<CardEntry>, i: int, b: Seq<CardEntry>, j: int)
    requires
        forall|e: CardEntry| a.contains(e) <==> b.contains(e),
        first_amd_card(a, i),
        first_amd_card(b, j),
    ensures
        a[i].name@ == b[j].name@,
{
    assert(a.contains(a[i]));
    assert(b.contains(a[i]));
    let k = choose|k: int| 0 <= k < b.len() && b[k] == a[i];
    assert(b.contains(b[j]));
    assert(a.contains(b[j]));
    let l = choose|l: int| 0 <= l < a.len() && a[l] == b[j];
    assert(amd_card(b[k]) && amd_card(a[l]));
    text::chars_before_is_total(a[i].name@, b[j].name@);
}

/// Whether a file holds a number on a line of its own.
pub open spec fn holds_number(file: Option<String>, n: nat) -> bool {
    chars_of(file) == Some(text::digits(n).push('\n'))
}

/// What is shown of a card of AMD is what its files hold: the usage up to everything, memory, temperature, the clock
/// in megahertz and the power. Files that cannot be read show nothing.
pub proof fn files_of_amd_are_shown(reading: AmdReading, name: Option<Seq<char>>, n: nat)
    requires
        n <= u64::MAX,
    ensures
        ({
            let shown = amd_shows(reading, name);
            &&& shown.available && shown.device_name == name
            &&& holds_number(reading.gpu_busy_percent, n) ==> shown.gpu_usage == if n > u32::MAX {
                None::<u32>
            } else if n > 100 {
                Some(100u32)
            } else {
                Some(n as u32)
            }
            &&& holds_number(reading.mem_info_vram_used, n) ==> shown.vram_used == Some(n as u64)
            &&& holds_number(reading.mem_info_vram_total, n) ==> shown.vram_total == Some(n as u64)
            &&& reading.gpu_busy_percent is None ==> shown.gpu_usage is None
            &&& reading.mem_info_vram_used is None ==> shown.vram_used is None
            &&& reading.mem_info_vram_total is None ==> shown.vram_total is None
            &&& reading.sensors is None ==> shown.temperature_millidegrees is None && shown.clock_mhz is None
                && shown.power_microwatts is None
            &&& reading.sensors matches Some(sensors) ==> {
                &&& holds_number(sensors.temp1_input, n) && n <= u32::MAX ==> shown.temperature_millidegrees == Some(
                    n as u64,
                )
                &&& holds_number(sensors.freq1_input, n) ==> shown.clock_mhz == Some((n / 1_000_000) as u64)
                &&& holds_number(sensors.power1_average, n) ==> shown.power_microwatts == Some(n as u64)
                &&& sensors.temp1_input is None ==> shown.temperature_millidegrees is None
                &&& sensors.freq1_input is None ==> shown.clock_mhz is None
                &&& sensors.power1_average is None ==> shown.power_microwatts is None
            }
        }),
{
    text::numbers_are_read_back_from_lines(n, u32::MAX as int);
    text::numbers_are_read_back_from_lines(n, u64::MAX as int);
}

/// What is shown of a card of NVIDIA is what its driver tells: the usage up to everything, memory, and in the units
/// of the other cards the temperature and the power.
pub proof fn tellings_of_nvidia_are_shown(r: NvidiaReading, name: Option<Seq<char>>)
    ensures
        ({
            let shown = nvidia_shows(Some(r), name);
            &&& shown.available && shown.device_name == name
            &&& r.utilization matches Some(u) ==> (u <= 100 ==> shown.gpu_usage == Some(u)) && (u > 100 ==> shown.gpu_usage
                == Some(100u32))
            &&& r.memory matches Some(m) ==> shown.vram_used == Some(m.0) && shown.vram_total == Some(m.1)
            &&& r.temperature matches Some(t) ==> shown.temperature_millidegrees == Some((t * 1000) as u64)
            &&& r.clock matches Some(c) ==> shown.clock_mhz == Some(c as u64)
            &&& r.power matches Some(p) ==> shown.power_microwatts == Some((p * 1000) as u64)
            &&& r.utilization is None ==> shown.gpu_usage is None
            &&& r.memory is None ==> shown.vram_used is None && shown.vram_total is None
            &&& r.temperature is None ==> shown.temperature_millidegrees is None
            &&& r.clock is None ==> shown.clock_mhz is None
            &&& r.power is None ==> shown.power_microwatts is None
        }),
        nvidia_shows(None, name).available && nvidia_shows(None, name).device_name == name && nvidia_shows(
            None,
            name,
        ).gpu_usage is None,
{
}

/// Prefixes of hexadecimal numbers are left out, however many there are, and nothing else is.
pub proof fn only_prefixes_are_left_out(s: Seq<char>)
    ensures
        without_prefixes(seq!['0', 'x'] + s) == without_prefixes(s),
        !(s.len() >= 2 && s[0] == '0' && s[1] == 'x') ==> without_prefixes(s) == s,
{
    let t = seq!['0', 'x'] + s;
    assert(t[0] == '0' && t[1] == 'x');
    assert(t.skip(2) =~= s);
}

/// A card is named as it is sold. Where that is not told it is named by maker and device, and not at all where one
/// of them is not told.
pub proof fn cards_are_named_as_sold(product: Option<Seq<char>>, vendor: Option<Seq<char>>, device: Option<Seq<char>>)
    ensures
        product matches Some(p) ==> (trim(p).len() > 0 ==> device_name(product, vendor, device) == Some(trim(p))),
        (product is None || trim(product->0).len() == 0) && vendor is Some && device is Some && trim(vendor->0).len() > 0
            && trim(device->0).len() > 0 ==> device_name(product, vendor, device) == Some(
            "GPU ["@ + without_prefixes(trim(vendor->0)) + ":"@ + without_prefixes(trim(device->0)) + "]"@,
        ),
        (product is None || trim(product->0).len() == 0) && (vendor is None || device is None || trim(vendor->0).len() == 0
            || trim(device->0).len() == 0) ==> device_name(product, vendor, device) is None,
{
}

/// A card of AMD is an entry that is named as a card, without the sign that connectors have, and bound to the
/// driver of AMD. Of several the first by name is watched.
pub proof fn cards_of_amd_are_told_by_name_and_driver(entries: Seq<CardEntry>, i: int, j: int)
    requires
        first_amd_card(entries, i),
        0 <= j < entries.len(),
    ensures
        seq!['c', 'a', 'r', 'd'].is_prefix_of(entries[i].name@),
        !entries[i].name@.contains('-'),
        chars_of(entries[i].driver) == Some("amdgpu"@),
        seq!['c', 'a', 'r', 'd'].is_prefix_of(entries[j].name@) && !entries[j].name@.contains('-') && chars_of(
            entries[j].driver,
        ) == Some("amdgpu"@) ==> !chars_before(entries[j].name@, entries[i].name@),
{
    reveal_strlit("card");
    assert("card"@ =~= seq!['c', 'a', 'r', 'd']);
    assert(amd_card(entries[i]));
    assert(amd_card(entries[j]) ==> !chars_before(entries[j].name@, entries[i].name@));
}

/// Each field of a snapshot is told as itself.
pub proof fn readings_are_told_field_by_field(g: GpuSnapshot)
    ensures
        g@.available == g.available,
        g@.gpu_usage == g.gpu_usage,
        g@.vram_used == g.vram_used,
        g@.vram_total == g.vram_total,
        g@.temperature_millidegrees == g.temperature_millidegrees,
        g@.clock_mhz == g.clock_mhz,
        g@.power_microwatts == g.power_microwatts,
        g@.device_name == chars_of(g.device_name),
{
}

/// Sensors are in directories whose names begin with the five letters `hwmon`.
pub proof fn sensors_are_told_by_their_directory(entry: SensorEntry)
    ensures
        holds_sensors(entry) <==> entry.is_dir && entry.name@.len() >= 5 && entry.name@.take(5) == seq![
            'h',
            'w',
            'm',
            'o',
            'n',
        ],
{
    reveal_strlit("hwmon");
    let h = "hwmon"@;
    if h.is_prefix_of(entry.name@) {
        assert(entry.name@.take(5) =~= h);
        assert(h =~= seq!['h', 'w', 'm', 'o', 'n']);
    }
    if entry.name@.len() >= 5 && entry.name@.take(5) == seq!['h', 'w', 'm', 'o', 'n'] {
        assert(h =~= entry.name@.take(5));
        assert(h.is_prefix_of(entry.name@));
    }
}

/// Before anything was read nothing is known of a card.
pub proof fn nothing_is_known_of_a_card_at_first()
    ensures
        ({
            let g = GpuView::nothing();
            &&& !g.available && g.gpu_usage is None && g.vram_used is None && g.vram_total is None
            &&& g.temperature_millidegrees is None && g.clock_mhz is None && g.power_microwatts is None && g.device_name is None
        }),
{
}

} // verus!
