//! Pure wire-protocol logic for the lighting controller chips: register
//! address translation, colour-frame byte reordering, chip classification and
//! LED-topology accounting. Nothing in this module touches the bus.

use vstd::prelude::*;

use crate::aura_error::AuraError;

verus! {

/// Register holding the number of LED-zone registers the chip reports.
pub const REGISTER_COUNT_REGISTER: u16 = 0xC1;

/// First of the per-zone LED-count registers; zone `i` lives at this base plus `i`.
pub const LED_COUNT_BASE_REGISTER: u16 = 0xC8;

/// Register written with [`ASSERT_UPLOAD_VALUE`] to latch an uploaded frame onto the LEDs.
pub const ASSERT_UPLOAD_REGISTER: u16 = 0xA0;

/// Value written to [`ASSERT_UPLOAD_REGISTER`] to trigger the latch.
pub const ASSERT_UPLOAD_VALUE: u8 = 0x01;

/// The chip's register-select convention: the logical register number is
/// or-ed with 0x8000 and sent byte-swapped.
pub open spec fn spec_swap_bytes(x: u16) -> u16 {
    ((x & 0xFF) << 8) | (x >> 8)
}

/// Wire encoding of a logical register number for the select word-write.
pub open spec fn spec_translated_register(reg: u16) -> u16 {
    spec_swap_bytes(0x8000u16 | reg)
}

/// Computes the select-word for a logical register: `byteswap(0x8000 | reg)`.
pub fn translate_register(reg: u16) -> (r: u16)
    ensures
        r == spec_translated_register(reg),
{
    let selected: u16 = 0x8000u16 | reg;
    ((selected & 0xFF) << 8) | (selected >> 8)
}

/// What kind of controller chip the identifier read at connect time revealed.
/// The kind selects protocol quirks, notably the colour-base register.
#[derive(Clone, Copy, Debug, PartialEq, Eq, Structural)]
pub enum ControllerKind {
    /// Not yet identified; only seen before initialization finishes.
    Unknown,
    /// Any chip whose identifier lacks the motherboard signature.
    Generic,
    /// A motherboard-integrated chip, recognised by its identifier prefix.
    MotherboardIntegrated,
}

/// Identifier prefix of motherboard-integrated controller chips: the ASCII
/// bytes of `AUMA0-E6K5`.
pub open spec fn spec_mb_signature() -> Seq<u8> {
    seq![0x41u8, 0x55u8, 0x4Du8, 0x41u8, 0x30u8, 0x2Du8, 0x45u8, 0x36u8, 0x4Bu8, 0x35u8]
}

/// Chip classification: identifiers beginning with the motherboard signature
/// classify as `MotherboardIntegrated`, all others as `Generic`.
pub open spec fn spec_classify(id: Seq<u8>) -> ControllerKind {
    if crate::text::spec_starts_with(id, spec_mb_signature()) {
        ControllerKind::MotherboardIntegrated
    } else {
        ControllerKind::Generic
    }
}

/// The motherboard signature prefix as a byte vector.
pub fn mb_signature() -> (v: Vec<u8>)
    ensures
        v@ == spec_mb_signature(),
{
    let v: Vec<u8> = vec![0x41u8, 0x55u8, 0x4Du8, 0x41u8, 0x30u8, 0x2Du8, 0x45u8, 0x36u8, 0x4Bu8, 0x35u8];
    assert(v@ =~= spec_mb_signature());
    v
}

/// Classifies a chip by its identifier bytes.
pub fn classify_identifier(id: &Vec<u8>) -> (kind: ControllerKind)
    ensures
        kind == spec_classify(id@),
{
    let signature = mb_signature();
    if crate::text::starts_with_bytes(id, &signature) {
        ControllerKind::MotherboardIntegrated
    } else {
        ControllerKind::Generic
    }
}

/// Base register for a colour-frame block upload, resolved by the chip kind.
pub open spec fn spec_colour_base_register(kind: ControllerKind) -> u16 {
    if kind == ControllerKind::Generic {
        0x0
    } else {
        0x100
    }
}

/// Computes the colour-base register for a chip kind.
pub fn colour_base_register(kind: ControllerKind) -> (r: u16)
    ensures
        r == spec_colour_base_register(kind),
{
    if kind == ControllerKind::Generic {
        0x0
    } else {
        0x100
    }
}

/// One byte of the wire ordering of a colour frame: within each `(R, G, B)`
/// triplet the wire carries `(R, B, G)`, so positions 1 and 2 of every triplet
/// are exchanged.
pub open spec fn spec_swizzle_byte(frame: Seq<u8>, i: int) -> u8 {
    if i % 3 == 1 {
        frame[i + 1]
    } else if i % 3 == 2 {
        frame[i - 1]
    } else {
        frame[i]
    }
}

/// Wire ordering of a whole colour frame.
pub open spec fn spec_swizzle(frame: Seq<u8>) -> Seq<u8> {
    Seq::new(frame.len(), |i: int| spec_swizzle_byte(frame, i))
}

/// Reorders a colour frame of `(R, G, B)` triplets into the chip's wire order.
pub fn swizzle_frame(colours: &[u8]) -> (r: Vec<u8>)
    requires
        colours@.len() % 3 == 0,
    ensures
        r@ == spec_swizzle(colours@),
{
    let mut out: Vec<u8> = Vec::new();
    let mut t: usize = 0;
    let triplets: usize = colours.len() / 3;
    while t < triplets
        invariant
            colours@.len() <= usize::MAX,
            colours@.len() % 3 == 0,
            triplets == colours@.len() / 3,
            0 <= t <= triplets,
            3 * triplets <= colours@.len(),
            out@.len() == 3 * t,
            forall|i: int| 0 <= i < 3 * t ==> out@[i] == spec_swizzle_byte(colours@, i),
        decreases triplets - t,
    {
        let base: usize = 3 * t;
        out.push(colours[base]);
        out.push(colours[base + 2]);
        out.push(colours[base + 1]);
        t = t + 1;
    }
    assert(out@ =~= spec_swizzle(colours@));
    out
}

/// The wire reordering is an involution: exchanging the G and B positions of
/// every triplet twice restores the original frame.
pub proof fn lemma_swizzle_involution(frame: Seq<u8>)
    requires
        frame.len() % 3 == 0,
    ensures
        spec_swizzle(spec_swizzle(frame)) == frame,
{
    assert(spec_swizzle(spec_swizzle(frame)) =~= frame);
}

/// Sum of the low nibbles of a sequence of zone bytes: the total LED count a
/// chip with those zone registers drives.
pub open spec fn spec_total_led_count(zone_bytes: Seq<u8>) -> int
    decreases zone_bytes.len(),
{
    if zone_bytes.len() == 0 {
        0
    } else {
        spec_total_led_count(zone_bytes.drop_last()) + (zone_bytes.last() & 0x0F)
    }
}

/// The per-zone LED counts of a controller, fixed at initialization: one
/// entry per zone register, each masked to its low nibble, together with the
/// total across all zones.
pub struct LedTopology {
    zone_counts: Vec<u8>,
    total: usize,
}

impl LedTopology {
    /// The masked per-zone counts.
    pub closed spec fn spec_counts(&self) -> Seq<u8> {
        self.zone_counts@
    }

    /// The total LED count.
    pub closed spec fn spec_total(&self) -> int {
        self.total as int
    }

    /// The total equals the sum of the stored per-zone counts, and every
    /// stored count fits in a nibble.
    pub closed spec fn wf(&self) -> bool {
        &&& self.total as int == spec_total_led_count(self.zone_counts@)
        &&& forall|i: int| 0 <= i < self.zone_counts@.len() ==> self.zone_counts@[i] <= 0x0F
    }

    /// Topology of a controller with no zones.
    pub fn empty() -> (t: LedTopology)
        ensures
            t.wf(),
            t.spec_counts() == Seq::<u8>::empty(),
            t.spec_total() == 0,
    {
        LedTopology { zone_counts: Vec::new(), total: 0 }
    }

    /// Builds the topology from the zone bytes read out of the chip: each
    /// byte is masked to its low nibble and the total accumulates the masked
    /// values.
    pub fn from_zone_bytes(zone_bytes: &Vec<u8>) -> (t: LedTopology)
        requires
            15 * zone_bytes@.len() <= usize::MAX,
        ensures
            t.wf(),
            t.spec_counts() == zone_bytes@.map_values(|b: u8| b & 0x0F),
            t.spec_total() == spec_total_led_count(zone_bytes@),
    {
        let mut counts: Vec<u8> = Vec::new();
        let mut total: usize = 0;
        let mut i: usize = 0;
        proof {
            lemma_total_led_count_bound(zone_bytes@);
        }
        while i < zone_bytes.len()
            invariant
                0 <= i <= zone_bytes@.len(),
                15 * zone_bytes@.len() <= usize::MAX,
                counts@ =~= zone_bytes@.take(i as int).map_values(|b: u8| b & 0x0F),
                forall|j: int| 0 <= j < counts@.len() ==> #[trigger] counts@[j] <= 0x0F,
                total as int == spec_total_led_count(zone_bytes@.take(i as int)),
                total <= 15 * i,
            decreases zone_bytes@.len() - i,
        {
            let zone_byte: u8 = zone_bytes[i];
            let masked: u8 = zone_byte & 0x0F;
            assert(zone_byte & 0x0F <= 0x0F) by (bit_vector);
            counts.push(masked);
            proof {
                lemma_total_led_count_bound(zone_bytes@.take(i as int));
                assert(zone_bytes@.take(i + 1).drop_last() =~= zone_bytes@.take(i as int));
                assert(counts@ =~= zone_bytes@.take(i + 1).map_values(|b: u8| b & 0x0F));
            }
            total = total + masked as usize;
            i = i + 1;
        }
        proof {
            assert(zone_bytes@.take(zone_bytes@.len() as int) =~= zone_bytes@);
            lemma_total_of_masked(zone_bytes@);
        }
        LedTopology { zone_counts: counts, total }
    }

    /// In a well-formed topology the total is exactly the nibble sum of the
    /// stored per-zone counts, each of which fits in a nibble.
    pub proof fn lemma_wf_total_is_sum(&self)
        requires
            self.wf(),
        ensures
            self.spec_total() == spec_total_led_count(self.spec_counts()),
            forall|i: int| 0 <= i < self.spec_counts().len() ==> #[trigger] self.spec_counts()[i]
                <= 0x0F,
    {
    }

    /// A well-formed topology has a non-negative total of at most fifteen
    /// LEDs per zone.
    pub proof fn lemma_total_bound(&self)
        requires
            self.wf(),
        ensures
            0 <= self.spec_total() <= 15 * self.spec_counts().len(),
    {
        lemma_total_led_count_bound(self.zone_counts@);
    }

    /// The total LED count.
    pub fn total(&self) -> (r: usize)
        ensures
            r as int == self.spec_total(),
    {
        self.total
    }

    /// The masked per-zone counts.
    pub fn counts(&self) -> (r: &Vec<u8>)
        ensures
            r@ == self.spec_counts(),
    {
        &self.zone_counts
    }
}

/// Masking is idempotent, so the nibble sum of the masked bytes equals the
/// nibble sum of the raw zone bytes.
proof fn lemma_total_of_masked(zone_bytes: Seq<u8>)
    ensures
        spec_total_led_count(zone_bytes.map_values(|b: u8| b & 0x0F)) == spec_total_led_count(
            zone_bytes,
        ),
    decreases zone_bytes.len(),
{
    if zone_bytes.len() > 0 {
        lemma_total_of_masked(zone_bytes.drop_last());
        assert(zone_bytes.map_values(|b: u8| b & 0x0F).drop_last() =~= zone_bytes.drop_last()
            .map_values(|b: u8| b & 0x0F));
        let last = zone_bytes.last();
        assert((last & 0x0F) & 0x0F == last & 0x0F) by (bit_vector);
    }
}

/// The nibble sum of `n` zone bytes is at most `15 * n`, and never negative.
pub proof fn lemma_total_led_count_bound(zone_bytes: Seq<u8>)
    ensures
        0 <= spec_total_led_count(zone_bytes) <= 15 * zone_bytes.len(),
    decreases zone_bytes.len(),
{
    if zone_bytes.len() > 0 {
        lemma_total_led_count_bound(zone_bytes.drop_last());
        let last = zone_bytes.last();
        assert(last & 0x0F <= 15) by (bit_vector);
    }
}

/// Sub-address offset of the register-select word-write.
pub const CONTROL_OFFSET: u8 = 0x00;

/// Sub-address offset of a byte- or word-read after a select.
pub const DATA_READ_OFFSET: u8 = 0x81;

/// Sub-address offset of a byte-write after a select.
pub const DATA_WRITE_OFFSET: u8 = 0x01;

/// Sub-address offset of a block-write after a select.
pub const BLOCK_WRITE_OFFSET: u8 = 0x03;

/// Logical register of the chip's identifier block; selected with the same
/// select rule as every other register.
pub const IDENTIFIER_REGISTER: u16 = 0x0010;

/// Sub-address offset of the identifier block-read.
pub const IDENTIFIER_BLOCK_OFFSET: u8 = 0x90;

/// The most bytes one SMBus block transaction can carry; a longer payload is
/// cut to this length by the transport.
pub const SMBUS_BLOCK_MAX: usize = 32;

/// What a block-write of `data` actually puts on the wire: the payload, cut
/// to the SMBus block maximum.
pub open spec fn spec_block_payload(data: Seq<u8>) -> Seq<u8> {
    if data.len() <= SMBUS_BLOCK_MAX {
        data
    } else {
        data.take(SMBUS_BLOCK_MAX as int)
    }
}

/// One bus transaction as the protocol model records it: what was put on the
/// wire (for reads, which kind of read was requested). Read results are not
/// modelled: they come from the hardware.
pub enum WireOp {
    /// A word-write of `value` at sub-address `offset`.
    WriteWord { offset: u8, value: u16 },
    /// A byte-write of `value` at sub-address `offset`.
    WriteByte { offset: u8, value: u8 },
    /// A block-write of `data` at sub-address `offset`.
    WriteBlock { offset: u8, data: Seq<u8> },
    /// A byte-read at sub-address `offset`.
    ReadByte { offset: u8 },
    /// A word-read at sub-address `offset`.
    ReadWord { offset: u8 },
    /// A block-read at sub-address `offset`.
    ReadBlock { offset: u8 },
}

/// An executable description of one write transaction, as the colour-upload
/// planner produces it. A block op carries its full payload; what the wire
/// carries for it is the payload cut to the SMBus block maximum, and that is
/// what the op's view records.
pub enum BusOp {
    /// A word-write of `value` at sub-address `offset`.
    WriteWord { offset: u8, value: u16 },
    /// A byte-write of `value` at sub-address `offset`.
    WriteByte { offset: u8, value: u8 },
    /// A block-write of `data` at sub-address `offset`.
    WriteBlock { offset: u8, data: Vec<u8> },
}

impl View for BusOp {
    type V = WireOp;

    open spec fn view(&self) -> WireOp {
        match self {
            BusOp::WriteWord { offset, value } => WireOp::WriteWord {
                offset: *offset,
                value: *value,
            },
            BusOp::WriteByte { offset, value } => WireOp::WriteByte {
                offset: *offset,
                value: *value,
            },
            BusOp::WriteBlock { offset, data } => WireOp::WriteBlock {
                offset: *offset,
                data: spec_block_payload(data@),
            },
        }
    }
}

/// The transactions of one logical register access: the select word-write,
/// then the access itself.
pub open spec fn spec_select_then(register: u16, access: WireOp) -> Seq<WireOp> {
    seq![
        WireOp::WriteWord { offset: CONTROL_OFFSET, value: spec_translated_register(register) },
        access,
    ]
}

/// The two transactions of the one identifier read at connect time: the
/// select of the identifier register, then the block-read of the identifier.
pub open spec fn spec_identifier_read_ops() -> Seq<WireOp> {
    spec_select_then(
        IDENTIFIER_REGISTER,
        WireOp::ReadBlock { offset: IDENTIFIER_BLOCK_OFFSET },
    )
}

/// The transactions of reading the first `zones` LED-count registers, in
/// order: each is one select of `LED_COUNT_BASE_REGISTER + i` and one
/// byte-read.
pub open spec fn spec_zone_read_ops(zones: int) -> Seq<WireOp>
    decreases zones,
{
    if zones <= 0 {
        Seq::empty()
    } else {
        spec_zone_read_ops(zones - 1) + spec_select_then(
            (LED_COUNT_BASE_REGISTER + zones - 1) as u16,
            WireOp::ReadByte { offset: DATA_READ_OFFSET },
        )
    }
}

/// The three fixed register writes that put the chip into static colour
/// mode.
pub open spec fn spec_static_mode_ops() -> Seq<WireOp> {
    spec_select_then(0x20, WireOp::WriteByte { offset: DATA_WRITE_OFFSET, value: 0x01 })
        + spec_select_then(0x21, WireOp::WriteByte { offset: DATA_WRITE_OFFSET, value: 0x0F })
        + spec_select_then(0x25, WireOp::WriteByte { offset: DATA_WRITE_OFFSET, value: 0xFF })
}

/// The exact transaction sequence of a successful connect on a chip that
/// reported `zones` zone registers: one identifier read, one register-count
/// read, one LED-count read per zone, and the static-mode initialization.
pub open spec fn spec_initialize_ops(zones: int) -> Seq<WireOp> {
    spec_identifier_read_ops() + spec_select_then(
        REGISTER_COUNT_REGISTER,
        WireOp::ReadByte { offset: DATA_READ_OFFSET },
    ) + spec_zone_read_ops(zones) + spec_static_mode_ops()
}

/// The exact transaction sequence of a colour upload for a chip of the given
/// kind: select the kind's colour-base register, block-write the reordered
/// frame (on the wire, cut to the SMBus block maximum), then select the
/// upload-assert register and write the trigger byte.
pub open spec fn spec_colour_upload_plan(kind: ControllerKind, colours: Seq<u8>) -> Seq<WireOp> {
    spec_select_then(
        spec_colour_base_register(kind),
        WireOp::WriteBlock {
            offset: BLOCK_WRITE_OFFSET,
            data: spec_block_payload(spec_swizzle(colours)),
        },
    ) + spec_select_then(
        ASSERT_UPLOAD_REGISTER,
        WireOp::WriteByte { offset: DATA_WRITE_OFFSET, value: ASSERT_UPLOAD_VALUE },
    )
}

/// Message of the error returned when a colour frame's length does not match
/// the controller's LED count.
pub open spec fn spec_invalid_led_count_msg() -> Seq<char> {
    "invalid number of LEDs passed in!"@
}

/// Plans the bus transactions of one colour upload. A frame whose length is
/// not exactly three bytes per LED is rejected with a length-mismatch error
/// and yields no transaction at all; a valid frame yields exactly the four
/// transactions of [`spec_colour_upload_plan`].
pub fn colour_upload_ops(kind: ControllerKind, total_led_count: usize, colours: &[u8]) -> (r:
    Result<Vec<BusOp>, AuraError>)
    ensures
        r is Ok <==> colours@.len() == 3 * total_led_count,
        r matches Ok(ops) ==> ops@.map_values(|op: BusOp| op@) == spec_colour_upload_plan(
            kind,
            colours@,
        ),
        r matches Err(e) ==> e matches AuraError::Other(s) && s@ == spec_invalid_led_count_msg(),
{
    if colours.len() % 3 != 0 || colours.len() / 3 != total_led_count {
        return Err(AuraError::other("invalid number of LEDs passed in!"));
    }
    let swizzled = swizzle_frame(colours);
    let mut ops: Vec<BusOp> = Vec::new();
    ops.push(
        BusOp::WriteWord {
            offset: CONTROL_OFFSET,
            value: translate_register(colour_base_register(kind)),
        },
    );
    ops.push(BusOp::WriteBlock { offset: BLOCK_WRITE_OFFSET, data: swizzled });
    ops.push(
        BusOp::WriteWord {
            offset: CONTROL_OFFSET,
            value: translate_register(ASSERT_UPLOAD_REGISTER),
        },
    );
    ops.push(BusOp::WriteByte { offset: DATA_WRITE_OFFSET, value: ASSERT_UPLOAD_VALUE });
    assert(ops@.map_values(|op: BusOp| op@) =~= spec_colour_upload_plan(kind, colours@));
    Ok(ops)
}

} // verus!
