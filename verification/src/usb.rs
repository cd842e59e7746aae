//! From what is asked of the device to the reports that are written to it:
//! which targets a set of lights comes to, and one report for each target.

use crate::device::{
    all_lights, back_lights, flag_lights, in_order, lemma_in_order, LightSet, Lights, Luxafor,
    PatternType, RgbColor, SimpleColor, Target, WaveType,
};
use crate::protocol;
use crate::protocol::{
    fade_report, pattern_report, rgb_report, simple_color_report, strobe_report, wave_report,
};
use vstd::prelude::*;

verus! {

pub const LUXAFOR_VID: u16 = 0x04D8;

pub const LUXAFOR_PID: u16 = 0xF372;

/// The target that addresses a single light.
pub open spec fn led_of(light: Lights) -> Target {
    match light {
        Lights::FlagBottom => Target::TabBottomLed,
        Lights::FlagMiddle => Target::TabMiddleLed,
        Lights::FlagTop => Target::TabTopLed,
        Lights::BackBottom => Target::BackBottomLed,
        Lights::BackMiddle => Target::BackMiddleLed,
        Lights::BackTop => Target::BackTopLed,
    }
}

/// The targets that a set of lights comes to: none for no light; one for
/// all six, for the three of the back and for the three of the flag; for any
/// other set one for each light, from the bottom of the flag to the top of
/// the back.
pub open spec fn targets_of(lights: Set<Lights>) -> Seq<Target> {
    if lights == Set::<Lights>::empty() {
        Seq::<Target>::empty()
    } else if lights == all_lights() {
        seq![Target::All]
    } else if lights == back_lights() {
        seq![Target::Back]
    } else if lights == flag_lights() {
        seq![Target::Tab]
    } else {
        in_order(lights).map_values(|light: Lights| led_of(light))
    }
}

/// The lights that a target addresses.
pub open spec fn lights_under(target: Target) -> Set<Lights> {
    match target {
        Target::All => all_lights(),
        Target::Back => back_lights(),
        Target::Tab => flag_lights(),
        Target::TabBottomLed => set![Lights::FlagBottom],
        Target::TabMiddleLed => set![Lights::FlagMiddle],
        Target::TabTopLed => set![Lights::FlagTop],
        Target::BackBottomLed => set![Lights::BackBottom],
        Target::BackMiddleLed => set![Lights::BackMiddle],
        Target::BackTopLed => set![Lights::BackTop],
    }
}

/// The targets of a set of lights are at most six. Between them they address
/// every light of the set once, and no other light.
pub proof fn lemma_targets_address(lights: Set<Lights>)
    ensures
        targets_of(lights).len() <= 6,
        forall|light: Lights|
            lights.contains(light) <==> exists|i: int|
                0 <= i < targets_of(lights).len() && lights_under(
                    #[trigger] targets_of(lights)[i],
                ).contains(light),
        forall|i: int, j: int|
            0 <= i < j < targets_of(lights).len() ==> lights_under(
                #[trigger] targets_of(lights)[i],
            ).disjoint(lights_under(#[trigger] targets_of(lights)[j])),
{
    let targets = targets_of(lights);
    let singles = in_order(lights);
    lemma_in_order(lights);
    if lights =~= Set::<Lights>::empty() {
    } else if lights =~= all_lights() {
        assert(lights_under(targets[0]) == lights);
    } else if lights =~= back_lights() {
        assert(lights_under(targets[0]) == lights);
    } else if lights =~= flag_lights() {
        assert(lights_under(targets[0]) == lights);
    } else {
        assert(targets.len() == singles.len());
        assert forall|i: int| 0 <= i < targets.len() implies lights_under(
            #[trigger] targets[i],
        ) == set![singles[i]] by {
            assert(targets[i] == led_of(singles[i]));
        }
        assert forall|light: Lights| lights.contains(light) implies exists|i: int|
            0 <= i < targets.len() && lights_under(#[trigger] targets[i]).contains(light) by {
            assert(singles.contains(light));
            let at = choose|at: int| 0 <= at < singles.len() && singles[at] == light;
            assert(lights_under(targets[at]).contains(light));
        }
        assert forall|light: Lights|
            (exists|i: int|
                0 <= i < targets.len() && lights_under(#[trigger] targets[i]).contains(
                    light,
                )) implies lights.contains(light) by {
            let at = choose|i: int|
                0 <= i < targets.len() && lights_under(#[trigger] targets[i]).contains(light);
            assert(singles[at] == light);
            assert(singles.contains(light));
        }
    }
}

pub fn lights_to_targets(lights: LightSet) -> (targets: Vec<Target>)
    ensures
        targets@ == targets_of(lights@),
{
    if lights.is_empty() {
        Vec::new()
    } else if lights.is_all() {
        vec![Target::All]
    } else if lights.same_as(&Lights::back()) {
        vec![Target::Back]
    } else if lights.same_as(&Lights::flag()) {
        vec![Target::Tab]
    } else {
        let singles = lights.iter();
        let mut targets: Vec<Target> = Vec::new();
        let mut i: usize = 0;
        while i < singles.len()
            invariant
                i <= singles@.len(),
                targets@ == singles@.take(i as int).map_values(|light: Lights| led_of(light)),
            decreases singles@.len() - i,
        {
            let target = match singles[i] {
                Lights::FlagBottom => Target::TabBottomLed,
                Lights::FlagMiddle => Target::TabMiddleLed,
                Lights::FlagTop => Target::TabTopLed,
                Lights::BackBottom => Target::BackBottomLed,
                Lights::BackMiddle => Target::BackMiddleLed,
                Lights::BackTop => Target::BackTopLed,
            };
            targets.push(target);
            i += 1;
            assert(targets@ =~= singles@.take(i as int).map_values(|light: Lights| led_of(light)));
        }
        assert(singles@.take(i as int) =~= singles@);
        targets
    }
}

/// One thing to ask of the device, with everything that it takes.
#[derive(Clone, Copy, Debug, PartialEq, Eq, Structural)]
pub enum Command {
    SimpleColor(SimpleColor),
    RgbColor(RgbColor, LightSet),
    FadeToColor(RgbColor, LightSet, u8),
    Strobe(RgbColor, LightSet, u8, u8),
    Wave(RgbColor, WaveType, u8, u8),
    Pattern(PatternType, u8),
}

/// The model of a `Command`: the lights are a set.
pub enum Request {
    SimpleColor(SimpleColor),
    RgbColor(RgbColor, Set<Lights>),
    FadeToColor(RgbColor, Set<Lights>, u8),
    Strobe(RgbColor, Set<Lights>, u8, u8),
    Wave(RgbColor, WaveType, u8, u8),
    Pattern(PatternType, u8),
}

impl View for Command {
    type V = Request;

    open spec fn view(&self) -> Request {
        match *self {
            Command::SimpleColor(color) => Request::SimpleColor(color),
            Command::RgbColor(color, lights) => Request::RgbColor(color, lights@),
            Command::FadeToColor(color, lights, fade_time) => Request::FadeToColor(
                color,
                lights@,
                fade_time,
            ),
            Command::Strobe(color, lights, speed, repeat) => Request::Strobe(
                color,
                lights@,
                speed,
                repeat,
            ),
            Command::Wave(color, wave_type, speed, repeat) => Request::Wave(
                color,
                wave_type,
                speed,
                repeat,
            ),
            Command::Pattern(pattern_type, repeat) => Request::Pattern(pattern_type, repeat),
        }
    }
}

/// The reports of a request: one for each target where it addresses lights,
/// one otherwise.
pub open spec fn reports_of(request: Request) -> Seq<Seq<u8>> {
    match request {
        Request::SimpleColor(color) => seq![simple_color_report(color)],
        Request::RgbColor(color, lights) => targets_of(lights).map_values(
            |target: Target| rgb_report(color, target),
        ),
        Request::FadeToColor(color, lights, fade_time) => targets_of(lights).map_values(
            |target: Target| fade_report(color, target, fade_time),
        ),
        Request::Strobe(color, lights, speed, repeat) => targets_of(lights).map_values(
            |target: Target| strobe_report(color, target, speed, repeat),
        ),
        Request::Wave(color, wave_type, speed, repeat) => seq![
            wave_report(color, wave_type, speed, repeat),
        ],
        Request::Pattern(pattern_type, repeat) => seq![pattern_report(pattern_type, repeat)],
    }
}

/// The views of a vector of reports.
pub open spec fn bytes_of(reports: Seq<Vec<u8>>) -> Seq<Seq<u8>> {
    reports.map_values(|report: Vec<u8>| report@)
}

/// The bytes of a report, as a vector.
fn to_vec<const N: usize>(report: &[u8; N]) -> (bytes: Vec<u8>)
    ensures
        bytes@ == report@,
{
    let mut bytes: Vec<u8> = Vec::new();
    let mut i: usize = 0;
    while i < N
        invariant
            i <= N,
            report@.len() == N,
            bytes@ == report@.take(i as int),
        decreases N - i,
    {
        bytes.push(report[i]);
        i += 1;
        assert(bytes@ =~= report@.take(i as int));
    }
    assert(report@.take(N as int) =~= report@);
    bytes
}

impl Luxafor {
    /// The report that shows one of the eight named colors on every light.
    pub fn set_simple_color(&self, color: SimpleColor) -> (reports: Vec<Vec<u8>>)
        ensures
            bytes_of(reports@) == reports_of(Request::SimpleColor(color)),
    {
        let reports = vec![to_vec(&protocol::set_simple_color(color))];
        assert(bytes_of(reports@) =~= reports_of(Request::SimpleColor(color)));
        reports
    }

    /// The reports that show a color on the given lights: one for each
    /// target, in their order.
    pub fn set_rgb_color(&self, color: RgbColor, lights: LightSet) -> (reports: Vec<Vec<u8>>)
        ensures
            bytes_of(reports@) == reports_of(Request::RgbColor(color, lights@)),
    {
        let targets = lights_to_targets(lights);
        let mut reports: Vec<Vec<u8>> = Vec::new();
        let mut i: usize = 0;
        while i < targets.len()
            invariant
                i <= targets@.len(),
                reports@.len() == i,
                forall|j: int|
                    0 <= j < i ==> (#[trigger] reports@[j])@ == rgb_report(color, targets@[j]),
            decreases targets@.len() - i,
        {
            reports.push(to_vec(&protocol::set_rgb_color(color, targets[i])));
            i += 1;
        }
        assert(bytes_of(reports@) =~= targets@.map_values(
            |target: Target| rgb_report(color, target),
        ));
        reports
    }

    /// The reports that fade the given lights to a color.
    pub fn fade_to_color(&self, color: RgbColor, lights: LightSet, fade_time: u8) -> (reports:
        Vec<Vec<u8>>)
        ensures
            bytes_of(reports@) == reports_of(Request::FadeToColor(color, lights@, fade_time)),
    {
        let targets = lights_to_targets(lights);
        let mut reports: Vec<Vec<u8>> = Vec::new();
        let mut i: usize = 0;
        while i < targets.len()
            invariant
                i <= targets@.len(),
                reports@.len() == i,
                forall|j: int|
                    0 <= j < i ==> (#[trigger] reports@[j])@ == fade_report(
                        color,
                        targets@[j],
                        fade_time,
                    ),
            decreases targets@.len() - i,
        {
            reports.push(to_vec(&protocol::fade_to_color(color, targets[i], fade_time)));
            i += 1;
        }
        assert(bytes_of(reports@) =~= targets@.map_values(
            |target: Target| fade_report(color, target, fade_time),
        ));
        reports
    }

    /// The reports that flash the given lights in a color.
    pub fn strobe(&self, color: RgbColor, lights: LightSet, speed: u8, repeat: u8) -> (reports:
        Vec<Vec<u8>>)
        ensures
            bytes_of(reports@) == reports_of(Request::Strobe(color, lights@, speed, repeat)),
    {
        let targets = lights_to_targets(lights);
        let mut reports: Vec<Vec<u8>> = Vec::new();
        let mut i: usize = 0;
        while i < targets.len()
            invariant
                i <= targets@.len(),
                reports@.len() == i,
                forall|j: int|
                    0 <= j < i ==> (#[trigger] reports@[j])@ == strobe_report(
                        color,
                        targets@[j],
                        speed,
                        repeat,
                    ),
            decreases targets@.len() - i,
        {
            reports.push(to_vec(&protocol::strobe(color, targets[i], speed, repeat)));
            i += 1;
        }
        assert(bytes_of(reports@) =~= targets@.map_values(
            |target: Target| strobe_report(color, target, speed, repeat),
        ));
        reports
    }

    /// The report that runs one of the four waves.
    pub fn wave(&self, color: RgbColor, wave_type: WaveType, speed: u8, repeat: u8) -> (reports:
        Vec<Vec<u8>>)
        ensures
            bytes_of(reports@) == reports_of(Request::Wave(color, wave_type, speed, repeat)),
    {
        let reports = vec![to_vec(&protocol::wave(color, wave_type, speed, repeat))];
        assert(bytes_of(reports@) =~= reports_of(Request::Wave(color, wave_type, speed, repeat)));
        reports
    }

    /// The report that plays one of the built-in patterns.
    pub fn pattern(&self, pattern_type: PatternType, repeat: u8) -> (reports: Vec<Vec<u8>>)
        ensures
            bytes_of(reports@) == reports_of(Request::Pattern(pattern_type, repeat)),
    {
        let reports = vec![to_vec(&protocol::pattern(pattern_type, repeat))];
        assert(bytes_of(reports@) =~= reports_of(Request::Pattern(pattern_type, repeat)));
        reports
    }

    /// The reports of a command, in the order in which they are written.
    pub fn execute(&self, command: &Command) -> (reports: Vec<Vec<u8>>)
        ensures
            bytes_of(reports@) == reports_of(command@),
    {
        match *command {
            Command::SimpleColor(color) => self.set_simple_color(color),
            Command::RgbColor(color, lights) => self.set_rgb_color(color, lights),
            Command::FadeToColor(color, lights, fade_time) => self.fade_to_color(
                color,
                lights,
                fade_time,
            ),
            Command::Strobe(color, lights, speed, repeat) => self.strobe(
                color,
                lights,
                speed,
                repeat,
            ),
            Command::Wave(color, wave_type, speed, repeat) => self.wave(
                color,
                wave_type,
                speed,
                repeat,
            ),
            Command::Pattern(pattern_type, repeat) => self.pattern(pattern_type, repeat),
        }
    }
}

/// What came of the last thing that was done on the channel to the device.
#[derive(Clone, Copy, Debug, PartialEq, Eq, Structural)]
pub enum Event {
    /// Nothing was done yet.
    Start,
    /// A report was written.
    Written,
    /// A report could not be written.
    WriteFailed,
    /// An answer was read.
    Answered,
    /// No answer could be read.
    ReadFailed,
}

/// What to do next on the channel.
#[derive(Debug, PartialEq, Eq)]
pub enum Action {
    /// Write this report.
    Write(Vec<u8>),
    /// Read the answer to the report that was written.
    Read,
    /// Nothing is left to do.
    Done,
}

/// The reports of a command on their way to the device. Each is written
/// once, in order; the answer is read where the report was written, and a
/// failure holds nothing up.
pub struct Transmission {
    reports: Vec<Vec<u8>>,
    written: usize,
}

impl Transmission {
    /// The reports, all of them.
    pub closed spec fn reports(&self) -> Seq<Seq<u8>> {
        bytes_of(self.reports@)
    }

    /// How many of the reports were handed out to be written.
    pub closed spec fn written(&self) -> nat {
        self.written as nat
    }

    pub fn new(reports: Vec<Vec<u8>>) -> (transmission: Transmission)
        ensures
            transmission.reports() == bytes_of(reports@),
            transmission.written() == 0,
    {
        Transmission { reports, written: 0 }
    }

    /// What follows on `event`: after a report was written its answer is
    /// read; after anything else the next report is written, if there is
    /// one.
    pub fn next(&mut self, event: Event) -> (action: Action)
        ensures
            final(self).reports() == old(self).reports(),
            match action {
                Action::Read => event == Event::Written && final(self).written() == old(
                    self,
                ).written(),
                Action::Write(report) => {
                    &&& event != Event::Written
                    &&& old(self).written() < old(self).reports().len()
                    &&& report@ == old(self).reports()[old(self).written() as int]
                    &&& final(self).written() == old(self).written() + 1
                },
                Action::Done => {
                    &&& event != Event::Written
                    &&& old(self).written() >= old(self).reports().len()
                    &&& final(self).written() == old(self).written()
                },
            },
    {
        match event {
            Event::Written => Action::Read,
            _ => {
                if self.written < self.reports.len() {
                    let report = self.reports[self.written].clone();
                    self.written += 1;
                    Action::Write(report)
                } else {
                    Action::Done
                }
            },
        }
    }
}

} // verus!
