//! The system monitor: the rates and the uptime as it words them, and the
//! interfaces and sensors that it picks to show.

use vstd::prelude::*;
use vstd::string::StringExecFns;
use crate::names::{begins_with, chars_of, has_prefix, spell_all, spelled};
use crate::text::{decimal, push_decimal, push_ratio_one_place, push_ratio_two_places,
    ratio_one_place, ratio_two_places, texts, GIB, KIB, MIB};
use crate::words::{is_sorted_before, lemma_sorting_total, lemma_sorting_transitive, lowercase,
    lowercase_of, mentions, occurs_in, remove_word, sorts_before, text_of, trim, trimmed,
    without};

verus! {

/// A transfer rate in the largest unit that it reaches: gibibytes and mebibytes
/// per second with two decimal places, kibibytes with one, bytes as they are.
pub open spec fn speed_text(bytes_per_sec: nat) -> Seq<char> {
    if bytes_per_sec >= GIB {
        ratio_two_places(bytes_per_sec, GIB as nat) + " GB/s"@
    } else if bytes_per_sec >= MIB {
        ratio_two_places(bytes_per_sec, MIB as nat) + " MB/s"@
    } else if bytes_per_sec >= KIB {
        ratio_one_place(bytes_per_sec, KIB as nat) + " KB/s"@
    } else {
        decimal(bytes_per_sec) + " B/s"@
    }
}

/// Formats a transfer rate for display.
pub fn format_speed(bytes_per_sec: u64) -> (text: String)
    ensures
        text@ == speed_text(bytes_per_sec as nat),
{
    let mut text = String::new();
    if bytes_per_sec >= GIB {
        push_ratio_two_places(&mut text, bytes_per_sec, GIB);
        text.append(" GB/s");
    } else if bytes_per_sec >= MIB {
        push_ratio_two_places(&mut text, bytes_per_sec, MIB);
        text.append(" MB/s");
    } else if bytes_per_sec >= KIB {
        push_ratio_one_place(&mut text, bytes_per_sec, KIB);
        text.append(" KB/s");
    } else {
        push_decimal(&mut text, bytes_per_sec as u128);
        text.append(" B/s");
    }
    text
}

/// An uptime split into whole days, hours of the day and minutes of the hour.
pub struct Uptime {
    pub days: u64,
    pub hours: u64,
    pub minutes: u64,
}

/// Splits a number of seconds into days, hours and minutes; the seconds left over are dropped.
pub fn uptime_parts(seconds: u64) -> (parts: Uptime)
    ensures
        parts.days == seconds / 86400,
        parts.hours == (seconds % 86400) / 3600,
        parts.minutes == (seconds % 3600) / 60,
        parts.hours < 24,
        parts.minutes < 60,
{
    Uptime { days: seconds / 86400, hours: (seconds % 86400) / 3600, minutes: (seconds % 3600) / 60 }
}

/// The time between two refreshes of the monitor's figures, in milliseconds.
pub const MONITOR_REFRESH_MS: u64 = 1000;

/// Whether the monitor's figures are to be refreshed: when the last refresh
/// is `MONITOR_REFRESH_MS` or more ago.
pub fn refresh_due(last_ms: u64, now_ms: u64) -> (due: bool)
    ensures
        due == (now_ms - last_ms >= MONITOR_REFRESH_MS),
{
    now_ms >= last_ms && now_ms - last_ms >= MONITOR_REFRESH_MS
}

/// The rate, in bytes per second, from which on an interface counts as busy.
pub const BUSY_RATE: u64 = 1024;

/// How many network interfaces the monitor shows at most.
pub const SHOWN_INTERFACES: usize = 2;

/// How many temperature sensors the monitor shows at most, besides the
/// graphics processor's.
pub const SHOWN_SENSORS: usize = 4;

/// Whether an interface carries traffic worth showing: it receives or sends
/// at `BUSY_RATE` or more.
pub fn is_busy(received: u64, transmitted: u64) -> (busy: bool)
    ensures
        busy == (received >= BUSY_RATE || transmitted >= BUSY_RATE),
{
    received >= BUSY_RATE || transmitted >= BUSY_RATE
}

/// Whether a name in lower case is that of a loopback or virtual interface.
pub open spec fn virtual_name(lower: Seq<char>) -> bool {
    occurs_in(lower, "loopback"@) || occurs_in(lower, "vmware"@) || occurs_in(lower, "virtualbox"@)
        || occurs_in(lower, "vboxnet"@) || begins_with(lower, "lo"@)
}

/// Whether a name in lower case is that of a loopback or virtual interface.
pub fn is_virtual_name(lower: &str) -> (is: bool)
    ensures
        is == virtual_name(lower@),
{
    let chars = chars_of(lower);
    let lo = chars_of("lo");
    mentions(&chars, "loopback") || mentions(&chars, "vmware") || mentions(&chars, "virtualbox")
        || mentions(&chars, "vboxnet") || has_prefix(&chars, &lo)
}

/// Whether the monitor leaves an interface out for its name: loopback and
/// virtual interfaces, told by their names in lower case.
pub fn is_virtual_interface(name: &str) -> (is: bool)
    ensures
        is == virtual_name(lowercase_of(name@)),
{
    let lower = lowercase(name);
    is_virtual_name(lower.as_str())
}

/// Whether an interface is one that the monitor may show: not a loopback or
/// virtual one, and busy.
pub fn is_shown_interface(name: &str, received: u64, transmitted: u64) -> (shown: bool)
    ensures
        shown == (!virtual_name(lowercase_of(name@)) && (received >= BUSY_RATE || transmitted
            >= BUSY_RATE)),
{
    !is_virtual_interface(name) && is_busy(received, transmitted)
}

/// Whether a sensor's label in lower case names a graphics processor, as the
/// monitor looks for one.
pub open spec fn graphics_label(lower: Seq<char>) -> bool {
    occurs_in(lower, "gpu"@) || occurs_in(lower, "video"@) || occurs_in(lower, "graphics"@)
        || occurs_in(lower, "vga"@) || occurs_in(lower, "display"@) || (occurs_in(lower, "intel"@)
        && (occurs_in(lower, "hd"@) || occurs_in(lower, "uhd"@) || occurs_in(lower, "iris"@)))
        || occurs_in(lower, "nvidia"@) || occurs_in(lower, "geforce"@) || occurs_in(lower, "gtx"@)
        || occurs_in(lower, "rtx"@) || occurs_in(lower, "amd"@) || occurs_in(lower, "radeon"@)
        || occurs_in(lower, "rx"@)
}

/// Whether a sensor's label in lower case names a graphics processor, as the
/// monitor looks for one.
pub fn is_graphics_label(lower: &str) -> (is: bool)
    ensures
        is == graphics_label(lower@),
{
    let c = chars_of(lower);
    mentions(&c, "gpu") || mentions(&c, "video") || mentions(&c, "graphics") || mentions(&c, "vga")
        || mentions(&c, "display") || (mentions(&c, "intel") && (mentions(&c, "hd") || mentions(
        &c,
        "uhd",
    ) || mentions(&c, "iris"))) || mentions(&c, "nvidia") || mentions(&c, "geforce") || mentions(
        &c,
        "gtx",
    ) || mentions(&c, "rtx") || mentions(&c, "amd") || mentions(&c, "radeon") || mentions(&c, "rx")
}

/// Whether a sensor's label in lower case is left out of the list of
/// sensors because it belongs to a graphics processor.
pub open spec fn graphics_sensor_label(lower: Seq<char>) -> bool {
    occurs_in(lower, "gpu"@) || occurs_in(lower, "video"@) || occurs_in(lower, "graphics"@)
        || occurs_in(lower, "vga"@) || occurs_in(lower, "display"@) || (occurs_in(lower, "intel"@)
        && (occurs_in(lower, "hd"@) || occurs_in(lower, "uhd"@) || occurs_in(lower, "iris"@)))
        || occurs_in(lower, "nvidia"@) || occurs_in(lower, "geforce"@) || occurs_in(lower, "amd"@)
        || occurs_in(lower, "radeon"@)
}

/// Whether a sensor's label in lower case names the processor or the board.
pub open spec fn board_label(lower: Seq<char>) -> bool {
    occurs_in(lower, "cpu"@) || occurs_in(lower, "core"@) || occurs_in(lower, "package"@)
        || occurs_in(lower, "motherboard"@) || occurs_in(lower, "system"@)
}

/// Whether a sensor with this label in lower case is listed: one of the
/// processor or the board that does not belong to a graphics processor.
pub open spec fn listed_label(lower: Seq<char>) -> bool {
    !graphics_sensor_label(lower) && board_label(lower)
}

/// Whether a sensor with this label in lower case is listed.
pub fn is_listed_label(lower: &str) -> (is: bool)
    ensures
        is == listed_label(lower@),
{
    let c = chars_of(lower);
    let graphics = mentions(&c, "gpu") || mentions(&c, "video") || mentions(&c, "graphics")
        || mentions(&c, "vga") || mentions(&c, "display") || (mentions(&c, "intel") && (mentions(
        &c,
        "hd",
    ) || mentions(&c, "uhd") || mentions(&c, "iris"))) || mentions(&c, "nvidia") || mentions(
        &c,
        "geforce",
    ) || mentions(&c, "amd") || mentions(&c, "radeon");
    let board = mentions(&c, "cpu") || mentions(&c, "core") || mentions(&c, "package") || mentions(
        &c,
        "motherboard",
    ) || mentions(&c, "system");
    !graphics && board
}

/// The sensors that the monitor shows.
#[derive(Debug)]
pub struct SensorChoice {
    /// The first sensor of a graphics processor, if there is one.
    pub graphics: Option<usize>,
    /// The first sensors of the processor and the board, `SHOWN_SENSORS` at most.
    pub listed: Vec<usize>,
}

/// The position of the first label of a graphics processor among `labels`
/// from `from` on, or the number of labels where there is none.
pub open spec fn first_graphics(labels: Seq<Seq<char>>, from: nat) -> nat
    decreases labels.len() - from,
{
    if from >= labels.len() {
        labels.len()
    } else if graphics_label(labels[from as int]) {
        from
    } else {
        first_graphics(labels, from + 1)
    }
}

/// The positions of the listed sensors among the first `n` labels, the first
/// `SHOWN_SENSORS` of them.
pub open spec fn listed_positions(labels: Seq<Seq<char>>, n: nat) -> Seq<usize>
    decreases n,
{
    if n == 0 || n > labels.len() {
        Seq::empty()
    } else {
        let earlier = listed_positions(labels, (n - 1) as nat);
        if earlier.len() < SHOWN_SENSORS && listed_label(labels[n - 1]) {
            earlier.push((n - 1) as usize)
        } else {
            earlier
        }
    }
}

/// The labels in lower case, one for each text.
pub open spec fn lowered(labels: Seq<Seq<char>>) -> Seq<Seq<char>> {
    Seq::new(labels.len(), |i: int| lowercase_of(labels[i]))
}

/// Chooses the sensors to show from labels in lower case: the first that
/// names a graphics processor, and the first four of the processor and the board.
pub fn choose_sensors(lower: &Vec<String>) -> (choice: SensorChoice)
    ensures
        match choice.graphics {
            Some(i) => i == first_graphics(texts(lower@), 0) && i < lower@.len(),
            None => first_graphics(texts(lower@), 0) == lower@.len(),
        },
        choice.listed@ == listed_positions(texts(lower@), lower@.len()),
        choice.listed@.len() <= SHOWN_SENSORS,
{
    let mut graphics: Option<usize> = None;
    let mut i: usize = 0;
    while graphics.is_none() && i < lower.len()
        invariant
            i <= lower.len(),
            first_graphics(texts(lower@), 0) == first_graphics(texts(lower@), i as nat),
            graphics matches Some(g) ==> g == i && i < lower.len() && graphics_label(
                texts(lower@)[i as int],
            ),
        decreases lower.len() - i + if graphics is None { 1nat } else { 0nat },
    {
        if is_graphics_label(lower[i].as_str()) {
            graphics = Some(i);
        } else {
            i = i + 1;
        }
    }
    let mut listed: Vec<usize> = Vec::new();
    let mut j: usize = 0;
    while j < lower.len()
        invariant
            j <= lower.len(),
            listed@ == listed_positions(texts(lower@), j as nat),
            listed@.len() <= SHOWN_SENSORS,
        decreases lower.len() - j,
    {
        if listed.len() < SHOWN_SENSORS && is_listed_label(lower[j].as_str()) {
            listed.push(j);
        }
        j = j + 1;
    }
    SensorChoice { graphics, listed }
}

/// Chooses the sensors to show from their labels: the labels are taken in
/// lower case.
pub fn shown_sensors(labels: &Vec<String>) -> (choice: SensorChoice)
    ensures
        match choice.graphics {
            Some(i) => i == first_graphics(lowered(texts(labels@)), 0) && i < labels@.len(),
            None => first_graphics(lowered(texts(labels@)), 0) == labels@.len(),
        },
        choice.listed@ == listed_positions(lowered(texts(labels@)), labels@.len()),
        choice.listed@.len() <= SHOWN_SENSORS,
{
    let mut lower: Vec<String> = Vec::new();
    let mut i: usize = 0;
    while i < labels.len()
        invariant
            i <= labels.len(),
            lower.len() == i,
            forall|k: int| 0 <= k < i ==> lower@[k]@ == lowercase_of(labels@[k]@),
        decreases labels.len() - i,
    {
        lower.push(lowercase(labels[i].as_str()));
        i = i + 1;
    }
    assert(texts(lower@) =~= lowered(texts(labels@)));
    choose_sensors(&lower)
}

/// Whether position `i` holds the first of the names that are eligible and
/// not taken yet, in sorted order; of equal names the earlier position comes first.
pub open spec fn leads(names: Seq<Seq<char>>, eligible: Seq<bool>, taken: Option<usize>, i: int) -> bool {
    &&& 0 <= i < names.len()
    &&& eligible[i]
    &&& taken != Some(i as usize)
    &&& forall|j: int|
        0 <= j < names.len() && eligible[j] && taken != Some(j as usize) && j != i
            ==> sorts_before(names[i], #[trigger] names[j]) || (names[i] == names[j] && i < j)
}

/// Finds the first of the names that are eligible and not taken yet, in
/// sorted order.
fn leader(names: &Vec<Vec<char>>, eligible: &Vec<bool>, taken: Option<usize>) -> (first: Option<
    usize,
>)
    requires
        names.len() == eligible.len(),
    ensures
        match first {
            Some(i) => leads(spelled(names@), eligible@, taken, i as int),
            None => forall|j: int|
                0 <= j < names.len() ==> !(#[trigger] eligible@[j] && taken != Some(j as usize)),
        },
{
    let mut best: Option<usize> = None;
    let mut k: usize = 0;
    while k < names.len()
        invariant
            k <= names.len(),
            names.len() == eligible.len(),
            match best {
                Some(b) => {
                    &&& b < k
                    &&& eligible@[b as int]
                    &&& taken != Some(b)
                    &&& forall|j: int|
                        0 <= j < k && eligible@[j] && taken != Some(j as usize) && j != b
                            ==> sorts_before(names@[b as int]@, #[trigger] names@[j]@) || (names@[b as int]@
                            == names@[j]@ && b < j)
                },
                None => forall|j: int|
                    0 <= j < k ==> !(#[trigger] eligible@[j] && taken != Some(j as usize)),
            },
        decreases names.len() - k,
    {
        let free = match taken {
            Some(t) => t != k,
            None => true,
        };
        if eligible[k] && free {
            match best {
                None => {
                    best = Some(k);
                },
                Some(b) => {
                    if is_sorted_before(&names[k], &names[b]) {
                        proof {
                            assert forall|j: int|
                                0 <= j < k + 1 && eligible@[j] && taken != Some(j as usize) && j
                                    != k implies sorts_before(
                                names@[k as int]@,
                                #[trigger] names@[j]@,
                            ) || (names@[k as int]@ == names@[j]@ && k < j) by {
                                if j != b {
                                    if sorts_before(names@[b as int]@, names@[j]@) {
                                        lemma_sorting_transitive(
                                            names@[k as int]@,
                                            names@[b as int]@,
                                            names@[j]@,
                                        );
                                    }
                                }
                            }
                        }
                        best = Some(k);
                    } else {
                        proof {
                            lemma_sorting_total(names@[b as int]@, names@[k as int]@);
                        }
                    }
                },
            }
        }
        k = k + 1;
    }
    proof {
        match best {
            Some(b) => {
                assert forall|j: int|
                    0 <= j < names.len() && eligible@[j] && taken != Some(j as usize) && j
                        != b implies sorts_before(
                    spelled(names@)[b as int],
                    #[trigger] spelled(names@)[j],
                ) || (spelled(names@)[b as int] == spelled(names@)[j] && b < j) by {
                    assert(sorts_before(names@[b as int]@, names@[j]@) || (names@[b as int]@
                        == names@[j]@ && b < j));
                }
            },
            None => {},
        }
    }
    best
}

/// Chooses the interfaces to show: of those that are eligible, the first
/// `SHOWN_INTERFACES` in the sorted order of their names.
pub fn shown_interfaces(names: &Vec<String>, eligible: &Vec<bool>) -> (shown: Vec<usize>)
    requires
        names.len() == eligible.len(),
    ensures
        shown@.len() <= SHOWN_INTERFACES,
        shown@.len() == 0 ==> forall|j: int| 0 <= j < names.len() ==> !#[trigger] eligible@[j],
        shown@.len() >= 1 ==> leads(texts(names@), eligible@, None, shown@[0] as int),
        shown@.len() == 1 ==> forall|j: int|
            0 <= j < names.len() && j != shown@[0] ==> !#[trigger] eligible@[j],
        shown@.len() == 2 ==> leads(texts(names@), eligible@, Some(shown@[0]), shown@[1] as int),
{
    let spelt = spell_all(names);
    let mut shown: Vec<usize> = Vec::new();
    match leader(&spelt, eligible, None) {
        Some(first) => {
            shown.push(first);
            match leader(&spelt, eligible, Some(first)) {
                Some(second) => {
                    shown.push(second);
                },
                None => {},
            }
        },
        None => {},
    }
    shown
}

/// A sensor's label without the words for temperature: first `temp`, then
/// `temperature`, `Temp` and `Temperature` are taken out.
pub open spec fn bare_label(label: Seq<char>) -> Seq<char> {
    without(
        without(without(without(label, "temp"@), "temperature"@), "Temp"@),
        "Temperature"@,
    )
}

/// A sensor's label without the words for temperature.
pub fn strip_temperature(label: &str) -> (bare: String)
    ensures
        bare@ == bare_label(label@),
{
    let chars = chars_of(label);
    let first = remove_word(&chars, &chars_of("temp"));
    let second = remove_word(&first, &chars_of("temperature"));
    let third = remove_word(&second, &chars_of("Temp"));
    let fourth = remove_word(&third, &chars_of("Temperature"));
    text_of(&fourth)
}

/// The name under which a sensor is shown: its label without the words for
/// temperature and without white space at its ends.
pub fn sensor_name(label: &str) -> (name: String)
    ensures
        name@ == trimmed(bare_label(label@)),
{
    let bare = strip_temperature(label);
    String::from_str(trim(bare.as_str()))
}

} // verus!
