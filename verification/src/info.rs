use vstd::prelude::*;

verus! {

/// One telemetry update from the host firmware. The display tracks
/// these kinds; anything else arrives as `Other` and is ignored.
#[derive(Clone, Copy, PartialEq, Eq, Structural, Debug)]
pub enum TelemetryEvent {
    /// Battery level, 0 to 100.
    Battery(u8),
    /// Whether the battery is charging.
    ChargingState(bool),
    /// Active keymap layer.
    Layer(u8),
    /// Active modifier mask.
    Modifier(u8),
    /// Typing speed in words per minute.
    Wpm(u16),
    /// Connection-type code (wired or wireless).
    ConnectionType(u8),
    /// Link state of the split peripheral at an index.
    SplitPeripheral(usize, bool),
    /// An event kind the display does not track.
    Other,
}

/// Mathematical state of a telemetry snapshot.
pub struct InfoView {
    pub battery: u8,
    pub charging: bool,
    pub layer: u8,
    pub modifier: u8,
    pub wpm: u16,
    pub connection_type: u8,
    pub peripheral: Seq<bool>,
    pub up: bool,
}

/// The snapshot after applying one event: exactly the matching field
/// is overwritten. A split-peripheral index at or past the peripheral
/// count is silently dropped, and unrecognized kinds change nothing.
pub open spec fn spec_update(s: InfoView, e: TelemetryEvent) -> InfoView {
    match e {
        TelemetryEvent::Battery(b) => InfoView { battery: b, ..s },
        TelemetryEvent::ChargingState(c) => InfoView { charging: c, ..s },
        TelemetryEvent::Layer(l) => InfoView { layer: l, ..s },
        TelemetryEvent::Modifier(m) => InfoView { modifier: m, ..s },
        TelemetryEvent::Wpm(w) => InfoView { wpm: w, ..s },
        TelemetryEvent::ConnectionType(t) => InfoView { connection_type: t, ..s },
        TelemetryEvent::SplitPeripheral(i, c) => if i < s.peripheral.len() {
            InfoView { peripheral: s.peripheral.update(i as int, c), ..s }
        } else {
            s
        },
        TelemetryEvent::Other => s,
    }
}

/// Snapshot bounds safety: a split-peripheral event whose index is at
/// or past the peripheral count changes nothing at all — every
/// peripheral flag and every other field is left as it was.
pub proof fn lemma_snapshot_bounds_safety(s: InfoView, index: usize, connected: bool)
    requires
        index >= s.peripheral.len(),
    ensures
        spec_update(s, TelemetryEvent::SplitPeripheral(index, connected)) == s,
{
}

/// The all-defaults snapshot state for a given peripheral count:
/// every numeric field zero, every flag false.
pub open spec fn spec_fresh_info(peripheral_count: nat) -> InfoView {
    InfoView {
        battery: 0,
        charging: false,
        layer: 0,
        modifier: 0,
        wpm: 0,
        connection_type: 0,
        peripheral: Seq::new(peripheral_count, |i: int| false),
        up: false,
    }
}

/// The latest known device state: one mutable record, owned by the
/// display controller and updated field-by-field from telemetry
/// events. The peripheral count is fixed at construction.
pub struct Infomation {
    pub battery: u8,
    pub charging: bool,
    pub layer: u8,
    pub modifier: u8,
    pub wpm: u16,
    pub connection_type: u8,
    pub peripheral: Vec<bool>,
    /// Animation parity bit: toggled by the controller on active
    /// redraws, never by telemetry.
    pub up: bool,
}

impl View for Infomation {
    type V = InfoView;

    open spec fn view(&self) -> InfoView {
        InfoView {
            battery: self.battery,
            charging: self.charging,
            layer: self.layer,
            modifier: self.modifier,
            wpm: self.wpm,
            connection_type: self.connection_type,
            peripheral: self.peripheral@,
            up: self.up,
        }
    }
}

/// Read access to a telemetry snapshot, independent of its peripheral
/// count.
pub trait InfoProvider {
    spec fn info(&self) -> InfoView;

    fn update(&mut self, event: &TelemetryEvent)
        ensures
            final(self).info() == spec_update(old(self).info(), *event),
    ;

    fn battery(&self) -> (r: u8)
        ensures
            r == self.info().battery,
    ;

    fn charging(&self) -> (r: bool)
        ensures
            r == self.info().charging,
    ;

    fn layer(&self) -> (r: u8)
        ensures
            r == self.info().layer,
    ;

    fn modifier(&self) -> (r: u8)
        ensures
            r == self.info().modifier,
    ;

    fn wpm(&self) -> (r: u16)
        ensures
            r == self.info().wpm,
    ;

    fn connection_type(&self) -> (r: u8)
        ensures
            r == self.info().connection_type,
    ;

    fn peripheral(&self, index: usize) -> (r: Option<bool>)
        ensures
            r == (if index < self.info().peripheral.len() {
                Some(self.info().peripheral[index as int])
            } else {
                None::<bool>
            }),
    ;
}

impl Infomation {
    /// A fresh snapshot for `peripheral_count` split peripherals, with
    /// every field at its zero or false default.
    pub fn new(peripheral_count: usize) -> (r: Infomation)
        ensures
            r@ == spec_fresh_info(peripheral_count as nat),
    {
        let mut peripheral: Vec<bool> = Vec::new();
        let mut i: usize = 0;
        while i < peripheral_count
            invariant
                i <= peripheral_count,
                peripheral@.len() == i,
                forall|j: int| 0 <= j < i ==> peripheral@[j] == false,
            decreases peripheral_count - i,
        {
            peripheral.push(false);
            i = i + 1;
        }
        let r = Infomation {
            battery: 0,
            charging: false,
            layer: 0,
            modifier: 0,
            wpm: 0,
            connection_type: 0,
            peripheral,
            up: false,
        };
        proof {
            assert(r@.peripheral =~= spec_fresh_info(peripheral_count as nat).peripheral);
        }
        r
    }

    /// Apply one telemetry event to the snapshot, overwriting exactly
    /// the matching field. An out-of-range split-peripheral index is a
    /// defensive no-op; unrecognized kinds are ignored.
    pub fn update_info(&mut self, event: &TelemetryEvent)
        ensures
            final(self)@ == spec_update(old(self)@, *event),
    {
        match event {
            TelemetryEvent::Battery(battery) => {
                self.battery = *battery;
            },
            TelemetryEvent::ChargingState(charging) => {
                self.charging = *charging;
            },
            TelemetryEvent::Layer(layer) => {
                self.layer = *layer;
            },
            TelemetryEvent::Modifier(modifier) => {
                self.modifier = *modifier;
            },
            TelemetryEvent::Wpm(wpm) => {
                self.wpm = *wpm;
            },
            TelemetryEvent::ConnectionType(connection_type) => {
                self.connection_type = *connection_type;
            },
            TelemetryEvent::SplitPeripheral(index, connected) => {
                if *index < self.peripheral.len() {
                    self.peripheral.set(*index, *connected);
                }
            },
            TelemetryEvent::Other => {},
        }
    }
}

impl InfoProvider for Infomation {
    open spec fn info(&self) -> InfoView {
        self@
    }

    fn update(&mut self, event: &TelemetryEvent) {
        self.update_info(event);
    }

    fn battery(&self) -> (r: u8) {
        self.battery
    }

    fn charging(&self) -> (r: bool) {
        self.charging
    }

    fn layer(&self) -> (r: u8) {
        self.layer
    }

    fn modifier(&self) -> (r: u8) {
        self.modifier
    }

    fn wpm(&self) -> (r: u16) {
        self.wpm
    }

    fn connection_type(&self) -> (r: u8) {
        self.connection_type
    }

    fn peripheral(&self, index: usize) -> (r: Option<bool>) {
        if index < self.peripheral.len() {
            Some(self.peripheral[index])
        } else {
            None
        }
    }
}

} // verus!
