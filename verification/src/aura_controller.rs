//! The device protocol driver: chip identification, LED-topology discovery,
//! static-mode initialization, and colour upload with chip-specific quirks.
//!
//! Every bus access of a driver shows up in the transaction log of its
//! [`RegisterLink`]; the contracts below pin down, transaction by
//! transaction, what each logical operation puts on the wire.

use vstd::prelude::*;

use crate::aura_error::{AuraError, AuraResult};
use crate::protocol::{
    colour_upload_ops, classify_identifier, spec_classify, spec_colour_upload_plan,
    spec_identifier_read_ops, spec_initialize_ops, spec_invalid_led_count_msg, spec_select_then,
    spec_total_led_count, spec_zone_read_ops, BusOp, ControllerKind, LedTopology, WireOp,
    DATA_READ_OFFSET, DATA_WRITE_OFFSET, LED_COUNT_BASE_REGISTER, REGISTER_COUNT_REGISTER,
};
use crate::register_link::RegisterLink;

verus! {

/// A connected, initialized controller chip: one exclusively-owned bus link,
/// the identity read at connect time, the kind that identity classified to,
/// and the LED topology discovered during initialization.
pub struct AuraController {
    name: String,
    controller_type: ControllerKind,
    link: RegisterLink,
    identity: Vec<u8>,
    topology: LedTopology,
}

/// The two controllers have the same display name, identity, kind and LED
/// topology; only their transaction logs may differ. Every operation of a
/// connected driver preserves this configuration.
pub open spec fn spec_same_config(a: AuraController, b: AuraController) -> bool {
    &&& a.spec_name() == b.spec_name()
    &&& a.spec_kind() == b.spec_kind()
    &&& a.spec_identity() == b.spec_identity()
    &&& a.spec_zone_counts() == b.spec_zone_counts()
    &&& a.spec_total() == b.spec_total()
}

impl AuraController {
    /// The display name this driver was connected under.
    pub closed spec fn spec_name(&self) -> Seq<char> {
        self.name@
    }

    /// The chip kind selected by classification at connect time.
    pub closed spec fn spec_kind(&self) -> ControllerKind {
        self.controller_type
    }

    /// The identifier bytes read from the chip at connect time.
    pub closed spec fn spec_identity(&self) -> Seq<u8> {
        self.identity@
    }

    /// The masked per-zone LED counts discovered during initialization.
    pub closed spec fn spec_zone_counts(&self) -> Seq<u8> {
        self.topology.spec_counts()
    }

    /// The total LED count discovered during initialization.
    pub closed spec fn spec_total(&self) -> int {
        self.topology.spec_total()
    }

    /// The ordered log of every bus transaction this driver has attempted.
    pub closed spec fn spec_log(&self) -> Seq<WireOp> {
        self.link.log()
    }

    /// A well-formed connected driver: the topology invariant holds and the
    /// chip kind is exactly what classification of the stored identity gives
    /// (in particular it is never `Unknown` once connected).
    pub closed spec fn wf(&self) -> bool {
        &&& self.topology.wf()
        &&& self.controller_type == spec_classify(self.identity@)
    }

    /// A connected driver is classified, so its kind is never `Unknown`.
    pub proof fn lemma_wf_kind_known(&self)
        requires
            self.wf(),
        ensures
            self.spec_kind() != ControllerKind::Unknown,
    {
    }

    /// A connected driver's kind is exactly the classification of its stored
    /// identity: the quirk selection is fixed by the identifier prefix.
    pub proof fn lemma_wf_classified(&self)
        requires
            self.wf(),
        ensures
            self.spec_kind() == spec_classify(self.spec_identity()),
    {
    }

    /// A connected driver's total LED count is exactly the nibble sum of its
    /// per-zone counts, each of which fits in a nibble.
    pub proof fn lemma_wf_total_is_zone_sum(&self)
        requires
            self.wf(),
        ensures
            self.spec_total() == spec_total_led_count(self.spec_zone_counts()),
            forall|i: int|
                0 <= i < self.spec_zone_counts().len() ==> #[trigger] self.spec_zone_counts()[i]
                    <= 0x0F,
    {
        self.topology.lemma_wf_total_is_sum();
    }

    /// Opens one exclusive bus link to the chip at `address` on the bus at
    /// `i2c_path`, reads and classifies the chip identifier, discovers the
    /// LED topology and puts the chip into static colour mode. Any bus error
    /// on the way aborts the construction: no partially-initialized driver is
    /// ever returned. The transaction log of a fresh driver shows exactly the
    /// connect sequence: the one identifier read, the register-count read,
    /// one LED-count read per reported zone, and the three static-mode
    /// writes.
    pub fn connect(name: &str, i2c_path: &str, address: u8) -> (r: AuraResult<AuraController>)
        ensures
            r matches Ok(c) ==> {
                &&& c.wf()
                &&& c.spec_name() == name@
                &&& c.spec_zone_counts().len() <= 255
                &&& c.spec_log() == spec_initialize_ops(c.spec_zone_counts().len() as int)
            },
            r is Err ==> r matches Err(AuraError::I2CError(_)),
    {
        let link = match RegisterLink::open(i2c_path, address as u16) {
            Ok(link) => link,
            Err(e) => {
                return Err(AuraError::I2CError(e));
            },
        };
        let mut controller = AuraController {
            name: name.to_owned(),
            controller_type: ControllerKind::Unknown,
            link,
            identity: Vec::new(),
            topology: LedTopology::empty(),
        };
        match controller.initialize() {
            Ok(()) => {
                proof {
                    assert(controller.spec_log() =~= spec_initialize_ops(
                        controller.spec_zone_counts().len() as int,
                    ));
                }
                Ok(controller)
            },
            Err(e) => Err(e),
        }
    }

    /// The display name.
    pub fn name(&self) -> (r: &String)
        ensures
            r@ == self.spec_name(),
    {
        &self.name
    }

    /// The identifier bytes read from the chip at connect time.
    pub fn identifier(&self) -> (r: &Vec<u8>)
        ensures
            r@ == self.spec_identity(),
    {
        &self.identity
    }

    /// The chip kind selected at connect time.
    pub fn kind(&self) -> (r: ControllerKind)
        ensures
            r == self.spec_kind(),
    {
        self.controller_type
    }

    /// The total number of LEDs across all zones of this controller.
    pub fn total_led_count(&self) -> (r: usize)
        ensures
            r as int == self.spec_total(),
    {
        self.topology.total()
    }

    /// The masked per-zone LED counts.
    pub fn zone_counts(&self) -> (r: &Vec<u8>)
        ensures
            r@ == self.spec_zone_counts(),
    {
        self.topology.counts()
    }

    /// Uploads one colour frame. A frame whose length is not exactly three
    /// bytes per LED is rejected with a length-mismatch error before any bus
    /// transaction is attempted; a valid frame is reordered to the wire byte
    /// order and uploaded with exactly the four transactions of
    /// [`spec_colour_upload_plan`] (the block-write's wire payload is capped
    /// at the SMBus block maximum). A bus failure mid-upload surfaces as a
    /// bus error after a prefix of those transactions.
    #[verifier::loop_isolation(false)]
    pub fn set_colours(&mut self, colours: &[u8]) -> (r: AuraResult<()>)
        ensures
            spec_same_config(*old(self), *final(self)),
            final(self).wf() == old(self).wf(),
            colours@.len() != 3 * old(self).spec_total() ==> {
                &&& r matches Err(AuraError::Other(s)) && s@ == spec_invalid_led_count_msg()
                &&& final(self).spec_log() == old(self).spec_log()
            },
            colours@.len() == 3 * old(self).spec_total() ==> {
                let plan = spec_colour_upload_plan(old(self).spec_kind(), colours@);
                &&& (r is Ok ==> final(self).spec_log() == old(self).spec_log() + plan)
                &&& (r is Err ==> (r matches Err(AuraError::I2CError(_))) && exists|k: int|
                    0 <= k <= plan.len() && final(self).spec_log() == old(self).spec_log()
                        + plan.take(k))
            },
    {
        let total = self.topology.total();
        let ops = match colour_upload_ops(self.controller_type, total, colours) {
            Ok(ops) => ops,
            Err(e) => {
                return Err(e);
            },
        };
        let ghost plan = spec_colour_upload_plan(self.controller_type, colours@);
        let ghost pre = *self;
        let mut i: usize = 0;
        while i < ops.len()
            invariant
                0 <= i <= ops@.len(),
                ops@.map_values(|op: BusOp| op@) == plan,
                spec_same_config(pre, *self),
                self.wf() == pre.wf(),
                self.spec_log() == pre.spec_log() + plan.take(i as int),
            decreases ops@.len() - i,
        {
            let op = &ops[i];
            match self.link.issue_write(op) {
                Ok(()) => {},
                Err(e) => {
                    proof {
                        assert(plan.take(i as int).push(plan[i as int]) =~= plan.take(i + 1));
                        assert(self.spec_log() == pre.spec_log() + plan.take(i + 1));
                    }
                    return Err(AuraError::I2CError(e));
                },
            }
            proof {
                assert(plan.take(i as int).push(plan[i as int]) =~= plan.take(i + 1));
            }
            i = i + 1;
        }
        proof {
            assert(plan.take(ops@.len() as int) =~= plan);
        }
        Ok(())
    }

    /// Reads a 16-bit value of a logical register: one select, one word-read.
    pub fn read_register_short(&mut self, register: u16) -> (r: AuraResult<u16>)
        ensures
            spec_same_config(*old(self), *final(self)),
            final(self).wf() == old(self).wf(),
            r is Ok ==> final(self).spec_log() == old(self).spec_log() + spec_select_then(
                register,
                WireOp::ReadWord { offset: DATA_READ_OFFSET },
            ),
            r is Err ==> (r matches Err(AuraError::I2CError(_))) && is_partial_access(
                old(self).spec_log(),
                final(self).spec_log(),
                register,
                WireOp::ReadWord { offset: DATA_READ_OFFSET },
            ),
    {
        let ghost access = WireOp::ReadWord { offset: DATA_READ_OFFSET };
        match self.link.select_register(register) {
            Ok(()) => {},
            Err(e) => {
                return Err(AuraError::I2CError(e));
            },
        }
        let r = match self.link.read_word() {
            Ok(v) => Ok(v),
            Err(e) => Err(AuraError::I2CError(e)),
        };
        proof {
            assert(self.spec_log() =~= old(self).spec_log() + spec_select_then(register, access));
        }
        r
    }

    /// Writes one byte to a logical register: one select, one byte-write.
    pub fn write_register_byte(&mut self, register: u16, val: u8) -> (r: AuraResult<()>)
        ensures
            spec_same_config(*old(self), *final(self)),
            final(self).wf() == old(self).wf(),
            r is Ok ==> final(self).spec_log() == old(self).spec_log() + spec_select_then(
                register,
                WireOp::WriteByte { offset: DATA_WRITE_OFFSET, value: val },
            ),
            r is Err ==> (r matches Err(AuraError::I2CError(_))) && is_partial_access(
                old(self).spec_log(),
                final(self).spec_log(),
                register,
                WireOp::WriteByte { offset: DATA_WRITE_OFFSET, value: val },
            ),
    {
        let ghost access = WireOp::WriteByte { offset: DATA_WRITE_OFFSET, value: val };
        match self.link.select_register(register) {
            Ok(()) => {},
            Err(e) => {
                return Err(AuraError::I2CError(e));
            },
        }
        let r = match self.link.write_byte(val) {
            Ok(()) => Ok(()),
            Err(e) => Err(AuraError::I2CError(e)),
        };
        proof {
            assert(self.spec_log() =~= old(self).spec_log() + spec_select_then(register, access));
        }
        r
    }

    /// Reads one byte of a logical register: one select, one byte-read.
    fn read_register_byte(&mut self, register: u16) -> (r: AuraResult<u8>)
        ensures
            spec_same_config(*old(self), *final(self)),
            final(self).wf() == old(self).wf(),
            r is Ok ==> final(self).spec_log() == old(self).spec_log() + spec_select_then(
                register,
                WireOp::ReadByte { offset: DATA_READ_OFFSET },
            ),
            r is Err ==> (r matches Err(AuraError::I2CError(_))) && is_partial_access(
                old(self).spec_log(),
                final(self).spec_log(),
                register,
                WireOp::ReadByte { offset: DATA_READ_OFFSET },
            ),
    {
        let ghost access = WireOp::ReadByte { offset: DATA_READ_OFFSET };
        match self.link.select_register(register) {
            Ok(()) => {},
            Err(e) => {
                return Err(AuraError::I2CError(e));
            },
        }
        let r = match self.link.read_byte() {
            Ok(v) => Ok(v),
            Err(e) => Err(AuraError::I2CError(e)),
        };
        proof {
            assert(self.spec_log() =~= old(self).spec_log() + spec_select_then(register, access));
        }
        r
    }

    /// Reads the chip-reported number of LED-zone registers.
    fn register_count(&mut self) -> (r: AuraResult<u8>)
        ensures
            spec_same_config(*old(self), *final(self)),
            final(self).wf() == old(self).wf(),
            r is Ok ==> final(self).spec_log() == old(self).spec_log() + spec_select_then(
                REGISTER_COUNT_REGISTER,
                WireOp::ReadByte { offset: DATA_READ_OFFSET },
            ),
            r is Err ==> r matches Err(AuraError::I2CError(_)),
    {
        self.read_register_byte(REGISTER_COUNT_REGISTER)
    }

    /// Identifies the chip, discovers the LED topology, and puts the chip
    /// into static colour mode. On failure the partially-updated state is
    /// never exposed: `connect` drops the driver.
    #[verifier::loop_isolation(false)]
    fn initialize(&mut self) -> (r: AuraResult<()>)
        ensures
            final(self).spec_name() == old(self).spec_name(),
            r is Err ==> r matches Err(AuraError::I2CError(_)),
            r is Ok ==> {
                &&& final(self).wf()
                &&& final(self).spec_kind() == spec_classify(final(self).spec_identity())
                &&& final(self).spec_total() >= 0
                &&& final(self).spec_zone_counts().len() <= 255
                &&& final(self).spec_log() == old(self).spec_log() + spec_initialize_ops(
                    final(self).spec_zone_counts().len() as int,
                )
            },
    {
        // Find out what kind of device we are.
        let identity = match self.link.read_identifier() {
            Ok(id) => id,
            Err(e) => {
                return Err(AuraError::I2CError(e));
            },
        };
        self.identity = identity;
        self.controller_type = classify_identifier(&self.identity);
        proof {
            assert(self.spec_log() == old(self).spec_log() + spec_identifier_read_ops());
        }

        // Find the number of LEDs behind each zone register.
        let register_count = match self.register_count() {
            Ok(c) => c,
            Err(e) => {
                return Err(e);
            },
        };
        let ghost pre = *self;
        let ghost probe_log = self.spec_log();
        let mut zone_bytes: Vec<u8> = Vec::new();
        let mut i: u16 = 0;
        while i < register_count as u16
            invariant
                0 <= i <= register_count as u16,
                zone_bytes@.len() == i as int,
                spec_same_config(pre, *self),
                self.wf() == pre.wf(),
                self.spec_log() == probe_log + spec_zone_read_ops(i as int),
            decreases register_count as u16 - i,
        {
            let led_count = match self.read_register_byte(LED_COUNT_BASE_REGISTER + i) {
                Ok(c) => c,
                Err(e) => {
                    return Err(e);
                },
            };
            zone_bytes.push(led_count);
            proof {
                assert(self.spec_log() =~= probe_log + spec_zone_read_ops(i + 1));
            }
            i = i + 1;
        }
        self.topology = LedTopology::from_zone_bytes(&zone_bytes);

        // Initialize in static mode.
        match self.write_register_byte(0x20, 0x01) {
            Ok(()) => {},
            Err(e) => {
                return Err(e);
            },
        }
        match self.write_register_byte(0x21, 0x0F) {
            Ok(()) => {},
            Err(e) => {
                return Err(e);
            },
        }
        match self.write_register_byte(0x25, 0xFF) {
            Ok(()) => {},
            Err(e) => {
                return Err(e);
            },
        }
        proof {
            self.topology.lemma_total_bound();
            let n = register_count as int;
            assert(self.spec_zone_counts().len() == n);
            assert(self.spec_log() =~= old(self).spec_log() + spec_initialize_ops(n));
        }
        Ok(())
    }
}

/// The log grew by the select transaction of `register` alone, or by the
/// select and the access: the shape a failed logical access leaves behind.
pub open spec fn is_partial_access(
    pre: Seq<WireOp>,
    post: Seq<WireOp>,
    register: u16,
    access: WireOp,
) -> bool {
    ||| post == pre.push(spec_select_then(register, access)[0])
    ||| post == pre + spec_select_then(register, access)
}

} // verus!
