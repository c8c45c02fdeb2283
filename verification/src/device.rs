//! Choosing audio hosts, devices and stream configurations.
//!
//! The audio backend reports what it offers (host names, device names,
//! supported configuration ranges); these functions decide among them.

use vstd::prelude::*;

verus! {

/// Whether a stream captures (sender) or plays back (receiver).
#[derive(Debug, Clone, Copy, PartialEq, Eq)]
pub enum Direction {
    Sender,
    Receiver,
}

/// The buffer sizes a configuration range supports.
#[derive(Debug, Clone, Copy, PartialEq, Eq)]
pub enum SupportedBufferSize {
    Range { min: u32, max: u32 },
    Unknown,
}

/// One configuration range a device supports: a channel count, a span of
/// sample rates and the supported buffer sizes.
#[derive(Debug, Clone, Copy, PartialEq, Eq)]
pub struct SupportedConfigRange {
    pub channels: u16,
    pub min_sample_rate: u32,
    pub max_sample_rate: u32,
    pub buffer_size: SupportedBufferSize,
}

/// A configuration chosen from a device's list: the range at `index`, run at
/// `sample_rate`.
#[derive(Debug, Clone, Copy, PartialEq, Eq)]
pub struct SelectedConfig {
    pub index: usize,
    pub sample_rate: u32,
}

/// Whether a configuration range serves the request: the requested rate
/// (as a `u32`) lies within its span and it has at least the requested
/// channels (as a `u16`).
pub open spec fn config_matches(c: SupportedConfigRange, requested_samplerate: usize, chcount: usize) -> bool {
    &&& c.min_sample_rate <= requested_samplerate as u32
    &&& c.max_sample_rate >= requested_samplerate as u32
    &&& c.channels >= chcount as u16
}

/// Whether the requested buffer size (as a `u32`) lies within a range's
/// known buffer sizes.
pub open spec fn buffer_fits(bs: SupportedBufferSize, requested_bufsize: usize) -> bool {
    match bs {
        SupportedBufferSize::Range { min, max } => min <= requested_bufsize as u32
            && requested_bufsize as u32 <= max,
        SupportedBufferSize::Unknown => false,
    }
}

/// Whether a range serves the request in full: rate, channels and buffer
/// size.
pub open spec fn config_fits(
    c: SupportedConfigRange,
    requested_bufsize: usize,
    requested_samplerate: usize,
    chcount: usize,
) -> bool {
    config_matches(c, requested_samplerate, chcount) && buffer_fits(c.buffer_size, requested_bufsize)
}

/// `config_fits` for one request, as a test on ranges.
pub open spec fn fits_request(
    requested_bufsize: usize,
    requested_samplerate: usize,
    chcount: usize,
) -> spec_fn(SupportedConfigRange) -> bool {
    |c: SupportedConfigRange| config_fits(c, requested_bufsize, requested_samplerate, chcount)
}

/// `config_matches` for one request, as a test on ranges.
pub open spec fn matches_request(requested_samplerate: usize, chcount: usize) -> spec_fn(
    SupportedConfigRange,
) -> bool {
    |c: SupportedConfigRange| config_matches(c, requested_samplerate, chcount)
}

/// The position of the first range of `configs` that `p` accepts.
pub open spec fn first_where(
    configs: Seq<SupportedConfigRange>,
    p: spec_fn(SupportedConfigRange) -> bool,
) -> Option<nat>
    decreases configs.len(),
{
    if configs.len() == 0 {
        None
    } else {
        match first_where(configs.drop_last(), p) {
            Some(i) => Some(i),
            None => if p(configs.last()) {
                Some((configs.len() - 1) as nat)
            } else {
                None
            },
        }
    }
}

/// The configuration closest to the request, run at the requested rate:
/// the first range that serves rate, channels and buffer size; failing
/// that, the first that serves rate and channels; `None` when no range
/// serves rate and channels (the device's default configuration is used
/// then).
pub open spec fn select_config_spec(
    configs: Seq<SupportedConfigRange>,
    requested_bufsize: usize,
    requested_samplerate: usize,
    chcount: usize,
) -> Option<SelectedConfig> {
    let fits = fits_request(requested_bufsize, requested_samplerate, chcount);
    let matches = matches_request(requested_samplerate, chcount);
    match first_where(configs, fits) {
        Some(i) => Some(SelectedConfig { index: i as usize, sample_rate: requested_samplerate as u32 }),
        None => match first_where(configs, matches) {
            Some(i) => Some(SelectedConfig { index: i as usize, sample_rate: requested_samplerate as u32 }),
            None => None,
        },
    }
}

proof fn lemma_first_where_step(
    configs: Seq<SupportedConfigRange>,
    p: spec_fn(SupportedConfigRange) -> bool,
    i: int,
)
    requires
        0 <= i < configs.len(),
    ensures
        first_where(configs.take(i + 1), p) == match first_where(configs.take(i), p) {
            Some(j) => Some(j),
            None => if p(configs[i]) {
                Some(i as nat)
            } else {
                None
            },
        },
{
    assert(configs.take(i + 1).drop_last() =~= configs.take(i));
}

proof fn lemma_first_where_prefix(
    configs: Seq<SupportedConfigRange>,
    p: spec_fn(SupportedConfigRange) -> bool,
    k: int,
    j: nat,
)
    requires
        0 <= k <= configs.len(),
        first_where(configs.take(k), p) == Some(j),
    ensures
        first_where(configs, p) == Some(j),
    decreases configs.len(),
{
    if k == configs.len() {
        assert(configs.take(k) =~= configs);
    } else {
        assert(configs.take(k) =~= configs.drop_last().take(k));
        lemma_first_where_prefix(configs.drop_last(), p, k, j);
    }
}

proof fn lemma_first_where_found(
    configs: Seq<SupportedConfigRange>,
    p: spec_fn(SupportedConfigRange) -> bool,
    i: int,
)
    requires
        0 <= i < configs.len(),
        p(configs[i]),
    ensures
        first_where(configs, p) matches Some(j) && j <= i && p(configs[j as int]),
    decreases configs.len(),
{
    if i < configs.len() - 1 {
        lemma_first_where_found(configs.drop_last(), p, i);
    } else {
        match first_where(configs.drop_last(), p) {
            Some(j) => {
                lemma_first_where_in(configs.drop_last(), p);
            },
            None => {},
        }
    }
}

proof fn lemma_first_where_in(configs: Seq<SupportedConfigRange>, p: spec_fn(SupportedConfigRange) -> bool)
    ensures
        first_where(configs, p) matches Some(j) ==> j < configs.len() && p(configs[j as int]),
    decreases configs.len(),
{
    if configs.len() > 0 {
        lemma_first_where_in(configs.drop_last(), p);
    }
}

/// No range before the first one `p` accepts is accepted; with none found,
/// no range is accepted.
proof fn lemma_first_where_none_before(configs: Seq<SupportedConfigRange>, p: spec_fn(SupportedConfigRange) -> bool)
    ensures
        match first_where(configs, p) {
            Some(j) => forall|k: int| 0 <= k < j ==> !p(#[trigger] configs[k]),
            None => forall|k: int| 0 <= k < configs.len() ==> !p(#[trigger] configs[k]),
        },
    decreases configs.len(),
{
    if configs.len() > 0 {
        let front = configs.drop_last();
        lemma_first_where_none_before(front, p);
        lemma_first_where_in(front, p);
        match first_where(front, p) {
            Some(j) => {
                assert forall|k: int| 0 <= k < j implies !p(#[trigger] configs[k]) by {
                    assert(configs[k] == front[k]);
                }
            },
            None => {
                assert forall|k: int| 0 <= k < configs.len() - 1 implies !p(
                    #[trigger] configs[k],
                ) by {
                    assert(configs[k] == front[k]);
                }
                assert(configs.last() == configs[configs.len() - 1]);
            },
        }
    }
}

/// The choice of configuration serves the request: a chosen range has the
/// requested rate within its span and at least the requested channels, and
/// is run at the requested rate. It is the first range that also takes the
/// requested buffer size; only when no range does, the first that serves
/// rate and channels. Nothing is chosen exactly when no range serves rate
/// and channels.
pub proof fn law_selected_range_serves_request(
    configs: Seq<SupportedConfigRange>,
    requested_bufsize: usize,
    requested_samplerate: usize,
    chcount: usize,
)
    requires
        configs.len() <= usize::MAX,
    ensures
        ({
            let rate = requested_samplerate as u32;
            let ch = chcount as u16;
            let b = requested_bufsize as u32;
            match select_config_spec(configs, requested_bufsize, requested_samplerate, chcount) {
                Some(s) => {
                    let c = configs[s.index as int];
                    &&& s.index < configs.len()
                    &&& s.sample_rate == rate
                    &&& c.min_sample_rate <= rate && rate <= c.max_sample_rate && c.channels >= ch
                    &&& if (c.buffer_size matches SupportedBufferSize::Range { min, max } && min <= b
                        && b <= max) {
                        forall|k: int|
                            0 <= k < s.index ==> !({
                                let e = #[trigger] configs[k];
                                &&& e.min_sample_rate <= rate && rate <= e.max_sample_rate
                                &&& e.channels >= ch
                                &&& e.buffer_size matches SupportedBufferSize::Range { min, max }
                                    && min <= b && b <= max
                            })
                    } else {
                        &&& forall|k: int|
                            0 <= k < configs.len() ==> !({
                                let e = #[trigger] configs[k];
                                &&& e.min_sample_rate <= rate && rate <= e.max_sample_rate
                                &&& e.channels >= ch
                                &&& e.buffer_size matches SupportedBufferSize::Range { min, max }
                                    && min <= b && b <= max
                            })
                        &&& forall|k: int|
                            0 <= k < s.index ==> !({
                                let e = #[trigger] configs[k];
                                e.min_sample_rate <= rate && rate <= e.max_sample_rate && e.channels
                                    >= ch
                            })
                    }
                },
                None => forall|k: int|
                    0 <= k < configs.len() ==> !({
                        let e = #[trigger] configs[k];
                        e.min_sample_rate <= rate && rate <= e.max_sample_rate && e.channels >= ch
                    }),
            }
        }),
{
    let fits = fits_request(requested_bufsize, requested_samplerate, chcount);
    let matches = matches_request(requested_samplerate, chcount);
    lemma_first_where_in(configs, fits);
    lemma_first_where_in(configs, matches);
    lemma_first_where_none_before(configs, fits);
    lemma_first_where_none_before(configs, matches);
    match first_where(configs, fits) {
        Some(j) => {
            assert(fits(configs[j as int]));
            assert(j as usize == j);
            assert forall|k: int| 0 <= k < j implies !fits(#[trigger] configs[k]) by {}
        },
        None => {
            assert forall|k: int| 0 <= k < configs.len() implies !fits(#[trigger] configs[k]) by {}
            match first_where(configs, matches) {
                Some(j) => {
                    assert(matches(configs[j as int]));
                    assert(j as usize == j);
                    assert(!fits(configs[j as int]));
                    assert forall|k: int| 0 <= k < j implies !matches(#[trigger] configs[k]) by {}
                },
                None => {
                    assert forall|k: int| 0 <= k < configs.len() implies !matches(
                        #[trigger] configs[k],
                    ) by {}
                },
            }
        },
    }
}

/// A range that serves rate, channels and the requested buffer size wins:
/// where some range does, the chosen one does too (the closest to the
/// request), and it is run at the requested rate.
pub proof fn law_fitting_range_chosen(
    configs: Seq<SupportedConfigRange>,
    requested_bufsize: usize,
    requested_samplerate: usize,
    chcount: usize,
    i: int,
)
    requires
        0 <= i < configs.len() <= usize::MAX,
        config_fits(configs[i], requested_bufsize, requested_samplerate, chcount),
    ensures
        select_config_spec(configs, requested_bufsize, requested_samplerate, chcount) matches Some(s)
            && s.index < configs.len() && config_fits(
            configs[s.index as int],
            requested_bufsize,
            requested_samplerate,
            chcount,
        ) && s.sample_rate == requested_samplerate as u32,
{
    let fits = fits_request(requested_bufsize, requested_samplerate, chcount);
    assert(fits(configs[i]));
    lemma_first_where_found(configs, fits, i);
    lemma_first_where_in(configs, fits);
    let j = first_where(configs, fits)->0;
    assert(fits(configs[j as int]));
    assert(j as usize == j);
}

fn select_config(
    configs: &Vec<SupportedConfigRange>,
    requested_bufsize: usize,
    requested_samplerate: usize,
    chcount: usize,
) -> (r: Option<SelectedConfig>)
    ensures
        r == select_config_spec(configs@, requested_bufsize, requested_samplerate, chcount),
{
    let ghost fits = fits_request(requested_bufsize, requested_samplerate, chcount);
    let ghost matches = matches_request(requested_samplerate, chcount);
    let rate = requested_samplerate as u32;
    let channels = chcount as u16;
    let bufsize = requested_bufsize as u32;
    let mut first_match: Option<usize> = None;
    let mut i: usize = 0;
    proof {
        assert(configs@.take(0) =~= Seq::<SupportedConfigRange>::empty());
    }
    while i < configs.len()
        invariant
            i <= configs@.len(),
            rate == requested_samplerate as u32,
            channels == chcount as u16,
            bufsize == requested_bufsize as u32,
            fits == fits_request(requested_bufsize, requested_samplerate, chcount),
            matches == matches_request(requested_samplerate, chcount),
            first_where(configs@.take(i as int), fits) is None,
            first_where(configs@.take(i as int), matches) == match first_match {
                Some(m) => Some(m as nat),
                None => None::<nat>,
            },
        decreases configs@.len() - i,
    {
        let c = configs[i];
        proof {
            lemma_first_where_step(configs@, fits, i as int);
            lemma_first_where_step(configs@, matches, i as int);
        }
        if c.min_sample_rate <= rate && c.max_sample_rate >= rate && c.channels >= channels {
            let buffer_ok = match c.buffer_size {
                SupportedBufferSize::Range { min, max } => min <= bufsize && bufsize <= max,
                SupportedBufferSize::Unknown => false,
            };
            if buffer_ok {
                proof {
                    lemma_first_where_prefix(configs@, fits, i + 1, i as nat);
                }
                return Some(SelectedConfig { index: i, sample_rate: rate });
            }
            if first_match.is_none() {
                first_match = Some(i);
            }
        }
        i = i + 1;
    }
    proof {
        assert(configs@.take(i as int) =~= configs@);
    }
    match first_match {
        Some(m) => Some(SelectedConfig { index: m, sample_rate: rate }),
        None => None,
    }
}

/// Chooses the capture configuration closest to the request (see
/// `select_config_spec`): a range that also holds the requested buffer size
/// is preferred.
pub fn select_input_device_config(
    configs: &Vec<SupportedConfigRange>,
    requested_bufsize: usize,
    requested_samplerate: usize,
    chcount: usize,
) -> (r: Option<SelectedConfig>)
    ensures
        r == select_config_spec(configs@, requested_bufsize, requested_samplerate, chcount),
{
    select_config(configs, requested_bufsize, requested_samplerate, chcount)
}

/// Chooses the playback configuration closest to the request (see
/// `select_config_spec`): a range that also holds the requested buffer size
/// is preferred.
pub fn select_output_device_config(
    configs: &Vec<SupportedConfigRange>,
    requested_bufsize: usize,
    requested_samplerate: usize,
    chcount: usize,
) -> (r: Option<SelectedConfig>)
    ensures
        r == select_config_spec(configs@, requested_bufsize, requested_samplerate, chcount),
{
    select_config(configs, requested_bufsize, requested_samplerate, chcount)
}

/// The largest supported buffer size; the backend must know the range.
pub fn max_buffer_size(bs: SupportedBufferSize) -> (r: u32)
    requires
        bs is Range,
    ensures
        bs matches SupportedBufferSize::Range { min, max } && r == max,
{
    match bs {
        SupportedBufferSize::Range { min, max } => max,
        SupportedBufferSize::Unknown => {
            proof {
                assert(false);
            }
            0
        },
    }
}

/// The position of the first entry of `names` equal to `name`.
pub open spec fn first_named(names: Seq<Seq<char>>, name: Seq<char>) -> Option<nat>
    decreases names.len(),
{
    if names.len() == 0 {
        None
    } else {
        match first_named(names.drop_last(), name) {
            Some(i) => Some(i),
            None => if names.last() == name {
                Some((names.len() - 1) as nat)
            } else {
                None
            },
        }
    }
}

proof fn lemma_first_named_found(names: Seq<Seq<char>>, name: Seq<char>, i: int)
    requires
        0 <= i < names.len(),
        names[i] == name,
        forall|j: int| 0 <= j < i ==> names[j] != name,
    ensures
        first_named(names, name) == Some(i as nat),
    decreases names.len(),
{
    if i < names.len() - 1 {
        lemma_first_named_found(names.drop_last(), name, i);
    } else {
        lemma_first_named_none(names.drop_last(), name);
    }
}

proof fn lemma_first_named_none(names: Seq<Seq<char>>, name: Seq<char>)
    requires
        forall|j: int| 0 <= j < names.len() ==> names[j] != name,
    ensures
        first_named(names, name) is None,
    decreases names.len(),
{
    if names.len() > 0 {
        lemma_first_named_none(names.drop_last(), name);
    }
}

/// Finds the audio host called `name` among the available hosts' names:
/// the position of the first one so called. Some host must be so called.
pub fn search_for_host(host_names: &Vec<String>, name: &str) -> (r: usize)
    requires
        first_named(host_names@.map_values(|s: String| s@), name@) is Some,
    ensures
        first_named(host_names@.map_values(|s: String| s@), name@) == Some(r as nat),
{
    let ghost names = host_names@.map_values(|s: String| s@);
    let target = name.to_owned();
    let mut i: usize = 0;
    while i < host_names.len()
        invariant
            i <= host_names@.len(),
            names == host_names@.map_values(|s: String| s@),
            target@ == name@,
            forall|j: int| 0 <= j < i ==> names[j] != name@,
        decreases host_names@.len() - i,
    {
        if host_names[i] == target {
            proof {
                lemma_first_named_found(names, name@, i as int);
            }
            return i;
        }
        i = i + 1;
    }
    proof {
        lemma_first_named_none(names, name@);
        assert(false);
    }
    0
}

/// Whether a device whose name reads `device_name` (`None` when the backend
/// could not tell it) is called `name`.
pub fn search_device(device_name: &Option<String>, name: &str) -> (r: bool)
    ensures
        r == named(*device_name, name@),
{
    match device_name {
        Some(n) => {
            let target = name.to_owned();
            *n == target
        },
        None => false,
    }
}

/// Whether a device whose name reads `d` is called `name`.
pub open spec fn named(d: Option<String>, name: Seq<char>) -> bool {
    d matches Some(n) && n@ == name
}

/// The position of the first device called `name` (see `search_device`).
pub open spec fn first_device(names: Seq<Option<String>>, name: Seq<char>) -> Option<nat>
    decreases names.len(),
{
    if names.len() == 0 {
        None
    } else {
        match first_device(names.drop_last(), name) {
            Some(i) => Some(i),
            None => if named(names.last(), name) {
                Some((names.len() - 1) as nat)
            } else {
                None
            },
        }
    }
}

proof fn lemma_first_device(names: Seq<Option<String>>, name: Seq<char>, i: int)
    requires
        0 <= i <= names.len(),
        forall|j: int| 0 <= j < i ==> !named(#[trigger] names[j], name),
        i < names.len() ==> named(names[i], name),
    ensures
        i < names.len() ==> first_device(names, name) == Some(i as nat),
        i == names.len() ==> first_device(names, name) is None,
    decreases names.len(),
{
    if names.len() > 0 {
        if i < names.len() - 1 {
            lemma_first_device(names.drop_last(), name, i);
        } else {
            lemma_first_device(names.drop_last(), name, names.len() - 1);
        }
    }
}

/// Finds the first device called `name` among devices whose names read
/// `device_names`.
pub fn find_device(device_names: &Vec<Option<String>>, name: &str) -> (r: Option<usize>)
    ensures
        r == (match first_device(device_names@, name@) {
            Some(i) => Some(i as usize),
            None => None::<usize>,
        }),
{
    let mut i: usize = 0;
    while i < device_names.len()
        invariant
            i <= device_names@.len(),
            forall|j: int| 0 <= j < i ==> !named(#[trigger] device_names@[j], name@),
        decreases device_names@.len() - i,
    {
        if search_device(&device_names[i], name) {
            proof {
                lemma_first_device(device_names@, name@, i as int);
            }
            return Some(i);
        }
        i = i + 1;
    }
    proof {
        lemma_first_device(device_names@, name@, i as int);
    }
    None
}

/// Which device a stream uses.
#[derive(Debug, Clone, Copy, PartialEq, Eq)]
pub enum DeviceChoice {
    /// The system's default device for the direction.
    SystemDefault,
    /// The device at this position of the direction's device list.
    Listed(usize),
}

/// Chooses the device of a stream: the capture devices for a sender, the
/// playback devices for a receiver; by name when one is given (some device
/// of the direction must be so called), else the system default.
pub fn get_cpal_config(
    direction: Direction,
    device_name: &Option<String>,
    input_devices: &Vec<Option<String>>,
    output_devices: &Vec<Option<String>>,
) -> (r: DeviceChoice)
    requires
        device_name matches Some(n) ==> first_device(
            match direction {
                Direction::Sender => input_devices@,
                Direction::Receiver => output_devices@,
            },
            n@,
        ) is Some,
    ensures
        ({
            let list = match direction {
                Direction::Sender => input_devices@,
                Direction::Receiver => output_devices@,
            };
            r == match device_name {
                None => DeviceChoice::SystemDefault,
                Some(n) => DeviceChoice::Listed(first_device(list, n@)->0 as usize),
            }
        }),
{
    match device_name {
        None => DeviceChoice::SystemDefault,
        Some(n) => {
            let found = match direction {
                Direction::Sender => find_device(input_devices, n.as_str()),
                Direction::Receiver => find_device(output_devices, n.as_str()),
            };
            match found {
                Some(i) => DeviceChoice::Listed(i),
                None => {
                    proof {
                        assert(false);
                    }
                    DeviceChoice::SystemDefault
                },
            }
        },
    }
}

} // verus!
