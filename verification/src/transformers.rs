//! Telemetry messages: what a transformer hands to the MCAP writer, and the
//! raw DJI telemetry transformer.

use vstd::prelude::*;
use vstd::string::StringSliceAdditionalSpecFns;

use crate::schemas::{
    BATTERY_SCHEMA, FRAME_TRANSFORM_SCHEMA, GIMBAL_SCHEMA, HOME_SCHEMA, JOINT_STATE_SCHEMA,
    LOCATION_FIX_SCHEMA, OSD_SCHEMA, RC_SCHEMA,
};
use dji_log_parser::frame::Frame;

verus! {

#[verifier::external_type_specification]
#[verifier::external_body]
pub struct ExFrame(Frame);

#[verifier::external_type_specification]
#[verifier::external_body]
pub struct ExJsonError(serde_json::Error);

/// One message to be written: the topic and schema of its channel, and its
/// encoded payload.
#[derive(Debug)]
pub struct TransformedMessage {
    pub topic: String,
    pub schema_name: String,
    pub schema_encoding: String,
    pub schema_data: Vec<u8>,
    pub payload: Vec<u8>,
}

/// Why a transformer produced no messages for a frame.
#[derive(Debug)]
pub enum TransformError {
    /// A part of the frame could not be serialised to JSON.
    Serialize(serde_json::Error),
}

/// `m` is a JSON-schema message on `topic` with schema `schema_name`
/// (whose text is `schema`) carrying `payload`.
pub open spec fn is_json_message(
    m: TransformedMessage,
    topic: &str,
    schema_name: &str,
    schema: &str,
    payload: Seq<u8>,
) -> bool {
    &&& m.topic@ == topic@
    &&& m.schema_name@ == schema_name@
    &&& m.schema_encoding@ == "jsonschema"@
    &&& m.schema_data@ == schema.spec_bytes()
    &&& m.payload@ == payload
}

/// Builds a JSON-schema message on `topic` with schema `schema_name`, whose
/// schema text is `schema`, carrying `payload`.
pub fn make_msg(topic: &str, schema_name: &str, schema: &str, payload: Vec<u8>) -> (m: TransformedMessage)
    ensures
        is_json_message(m, topic, schema_name, schema, payload@),
{
    TransformedMessage {
        topic: topic.to_owned(),
        schema_name: schema_name.to_owned(),
        schema_encoding: "jsonschema".to_owned(),
        schema_data: vstd::slice::slice_to_vec(schema.as_bytes()),
        payload,
    }
}

/// Seconds and nanoseconds of a timestamp given in nanoseconds.
pub fn split_timestamp(timestamp_ns: u64) -> (r: (u64, u64))
    ensures
        r.0 == timestamp_ns / 1_000_000_000,
        r.1 == timestamp_ns % 1_000_000_000,
        r.1 < 1_000_000_000,
        r.0 * 1_000_000_000 + r.1 == timestamp_ns,
{
    (timestamp_ns / 1_000_000_000, timestamp_ns % 1_000_000_000)
}

/// The raw telemetry of a frame as five `dji.*` messages, in this order:
/// OSD, gimbal, battery, RC, home.
pub open spec fn is_raw_batch(
    msgs: Seq<TransformedMessage>,
    osd: Seq<u8>,
    gimbal: Seq<u8>,
    battery: Seq<u8>,
    rc: Seq<u8>,
    home: Seq<u8>,
) -> bool {
    &&& msgs.len() == 5
    &&& is_json_message(msgs[0], "/dji/osd", "dji.OSD", OSD_SCHEMA, osd)
    &&& is_json_message(msgs[1], "/dji/gimbal", "dji.Gimbal", GIMBAL_SCHEMA, gimbal)
    &&& is_json_message(msgs[2], "/dji/battery", "dji.Battery", BATTERY_SCHEMA, battery)
    &&& is_json_message(msgs[3], "/dji/rc", "dji.RC", RC_SCHEMA, rc)
    &&& is_json_message(msgs[4], "/dji/home", "dji.Home", HOME_SCHEMA, home)
}

/// Passes the raw DJI telemetry of every frame through as JSON.
pub struct RawTransformer;

/// Name for the JSON bytes that `serde_json::to_vec` writes for the frame's
/// OSD record (`frame.osd`); they depend on the frame alone.
pub uninterp spec fn osd_record_json(frame: Frame) -> Seq<u8>;

/// Calls `serde_json::to_vec` on the frame's OSD record (`frame.osd`).
/// The contract claims that this succeeds (the record's `Serialize` is
/// derived and holds no map, and `serde_json` writes non-finite floats as
/// `null`, so serialising it into a `Vec` cannot fail) and names the bytes.
#[verifier::external_body]
fn osd_json(frame: &Frame) -> (r: Result<Vec<u8>, serde_json::Error>)
    ensures
        r is Ok,
        r is Ok ==> r->Ok_0@ == osd_record_json(*frame),
{
    serde_json::to_vec(&frame.osd)
}

/// Name for the JSON bytes that `serde_json::to_vec` writes for the frame's
/// gimbal record (`frame.gimbal`); they depend on the frame alone.
pub uninterp spec fn gimbal_record_json(frame: Frame) -> Seq<u8>;

/// Calls `serde_json::to_vec` on the frame's gimbal record (`frame.gimbal`).
/// The contract claims that this succeeds (the record's `Serialize` is
/// derived and holds no map, and `serde_json` writes non-finite floats as
/// `null`, so serialising it into a `Vec` cannot fail) and names the bytes.
#[verifier::external_body]
fn gimbal_json(frame: &Frame) -> (r: Result<Vec<u8>, serde_json::Error>)
    ensures
        r is Ok,
        r is Ok ==> r->Ok_0@ == gimbal_record_json(*frame),
{
    serde_json::to_vec(&frame.gimbal)
}

/// Name for the JSON bytes that `serde_json::to_vec` writes for the frame's
/// battery record (`frame.battery`); they depend on the frame alone.
pub uninterp spec fn battery_record_json(frame: Frame) -> Seq<u8>;

/// Calls `serde_json::to_vec` on the frame's battery record (`frame.battery`).
/// The contract claims that this succeeds (the record's `Serialize` is
/// derived and holds no map, and `serde_json` writes non-finite floats as
/// `null`, so serialising it into a `Vec` cannot fail) and names the bytes.
#[verifier::external_body]
fn battery_json(frame: &Frame) -> (r: Result<Vec<u8>, serde_json::Error>)
    ensures
        r is Ok,
        r is Ok ==> r->Ok_0@ == battery_record_json(*frame),
{
    serde_json::to_vec(&frame.battery)
}

/// Name for the JSON bytes that `serde_json::to_vec` writes for the frame's
/// remote-control record (`frame.rc`); they depend on the frame alone.
pub uninterp spec fn rc_record_json(frame: Frame) -> Seq<u8>;

/// Calls `serde_json::to_vec` on the frame's remote-control record (`frame.rc`).
/// The contract claims that this succeeds (the record's `Serialize` is
/// derived and holds no map, and `serde_json` writes non-finite floats as
/// `null`, so serialising it into a `Vec` cannot fail) and names the bytes.
#[verifier::external_body]
fn rc_json(frame: &Frame) -> (r: Result<Vec<u8>, serde_json::Error>)
    ensures
        r is Ok,
        r is Ok ==> r->Ok_0@ == rc_record_json(*frame),
{
    serde_json::to_vec(&frame.rc)
}

/// Name for the JSON bytes that `serde_json::to_vec` writes for the frame's
/// home-point record (`frame.home`); they depend on the frame alone.
pub uninterp spec fn home_record_json(frame: Frame) -> Seq<u8>;

/// Calls `serde_json::to_vec` on the frame's home-point record (`frame.home`).
/// The contract claims that this succeeds (the record's `Serialize` is
/// derived and holds no map, and `serde_json` writes non-finite floats as
/// `null`, so serialising it into a `Vec` cannot fail) and names the bytes.
#[verifier::external_body]
fn home_json(frame: &Frame) -> (r: Result<Vec<u8>, serde_json::Error>)
    ensures
        r is Ok,
        r is Ok ==> r->Ok_0@ == home_record_json(*frame),
{
    serde_json::to_vec(&frame.home)
}

impl RawTransformer {
    pub fn new() -> (t: Self) {
        RawTransformer
    }

    /// The five raw telemetry messages of a frame whose parts serialised to
    /// the given JSON payloads.
    pub fn messages(
        &self,
        osd: Vec<u8>,
        gimbal: Vec<u8>,
        battery: Vec<u8>,
        rc: Vec<u8>,
        home: Vec<u8>,
    ) -> (msgs: Vec<TransformedMessage>)
        ensures
            is_raw_batch(msgs@, osd@, gimbal@, battery@, rc@, home@),
    {
        let mut msgs: Vec<TransformedMessage> = Vec::new();
        msgs.push(make_msg("/dji/osd", "dji.OSD", OSD_SCHEMA, osd));
        msgs.push(make_msg("/dji/gimbal", "dji.Gimbal", GIMBAL_SCHEMA, gimbal));
        msgs.push(make_msg("/dji/battery", "dji.Battery", BATTERY_SCHEMA, battery));
        msgs.push(make_msg("/dji/rc", "dji.RC", RC_SCHEMA, rc));
        msgs.push(make_msg("/dji/home", "dji.Home", HOME_SCHEMA, home));
        msgs
    }

    /// The raw telemetry of `frame` as five JSON messages (OSD, gimbal,
    /// battery, RC, home), each carrying the JSON of its record; serialising
    /// these records always succeeds, and the result depends on the frame
    /// alone.
    pub fn transform(&mut self, frame: &Frame, _timestamp_ns: u64) -> (r: Result<
        Vec<TransformedMessage>,
        TransformError,
    >)
        ensures
            r is Ok,
            r is Ok ==> is_raw_batch(
                r->Ok_0@,
                osd_record_json(*frame),
                gimbal_record_json(*frame),
                battery_record_json(*frame),
                rc_record_json(*frame),
                home_record_json(*frame),
            ),
    {
        let osd = match osd_json(frame) {
            Ok(v) => v,
            Err(e) => return Err(TransformError::Serialize(e)),
        };
        let gimbal = match gimbal_json(frame) {
            Ok(v) => v,
            Err(e) => return Err(TransformError::Serialize(e)),
        };
        let battery = match battery_json(frame) {
            Ok(v) => v,
            Err(e) => return Err(TransformError::Serialize(e)),
        };
        let rc = match rc_json(frame) {
            Ok(v) => v,
            Err(e) => return Err(TransformError::Serialize(e)),
        };
        let home = match home_json(frame) {
            Ok(v) => v,
            Err(e) => return Err(TransformError::Serialize(e)),
        };
        Ok(self.messages(osd, gimbal, battery, rc, home))
    }
}

/// Two raw batches of the same payloads agree in every field of every
/// message: what the raw transformer writes for a frame depends on nothing
/// but the frame's records (not on the timestamp, nor on earlier frames).
pub proof fn lemma_raw_batch_determined(
    a: Seq<TransformedMessage>,
    b: Seq<TransformedMessage>,
    osd: Seq<u8>,
    gimbal: Seq<u8>,
    battery: Seq<u8>,
    rc: Seq<u8>,
    home: Seq<u8>,
)
    requires
        is_raw_batch(a, osd, gimbal, battery, rc, home),
        is_raw_batch(b, osd, gimbal, battery, rc, home),
    ensures
        a.len() == b.len(),
        forall|i: int|
            0 <= i < a.len() ==> {
                &&& (#[trigger] a[i]).topic@ == b[i].topic@
                &&& a[i].schema_name@ == b[i].schema_name@
                &&& a[i].schema_encoding@ == b[i].schema_encoding@
                &&& a[i].schema_data@ == b[i].schema_data@
                &&& a[i].payload@ == b[i].payload@
            },
{
    assert forall|i: int| 0 <= i < a.len() implies {
        &&& (#[trigger] a[i]).topic@ == b[i].topic@
        &&& a[i].schema_name@ == b[i].schema_name@
        &&& a[i].schema_encoding@ == b[i].schema_encoding@
        &&& a[i].schema_data@ == b[i].schema_data@
        &&& a[i].payload@ == b[i].payload@
    } by {
        if i == 0 {
        } else if i == 1 {
        } else if i == 2 {
        } else if i == 3 {
        } else {
        }
    }
}

/// The three gimbal messages of a frame, in this order: joint state,
/// gimbal transform, camera transform.
pub open spec fn is_joint_batch(
    msgs: Seq<TransformedMessage>,
    joint_state: Seq<u8>,
    gimbal_tf: Seq<u8>,
    camera_tf: Seq<u8>,
) -> bool {
    &&& msgs.len() == 3
    &&& is_json_message(msgs[0], "/joint_states", "sensor_msgs/JointState", JOINT_STATE_SCHEMA, joint_state)
    &&& is_json_message(msgs[1], "/foxglove/gimbal/tf", "foxglove.FrameTransform", FRAME_TRANSFORM_SCHEMA, gimbal_tf)
    &&& is_json_message(msgs[2], "/foxglove/camera/tf", "foxglove.FrameTransform", FRAME_TRANSFORM_SCHEMA, camera_tf)
}

/// Drives the gimbal joints of the drone model and the gimbal and camera
/// frames of the transform tree.
pub struct JointStateTransformer;

impl JointStateTransformer {
    pub fn new() -> (t: Self) {
        JointStateTransformer
    }

    /// The three gimbal messages of a frame whose joint state, gimbal
    /// transform and camera transform encoded to the given JSON payloads.
    pub fn messages(&self, joint_state: Vec<u8>, gimbal_tf: Vec<u8>, camera_tf: Vec<u8>) -> (msgs: Vec<
        TransformedMessage,
    >)
        ensures
            is_joint_batch(msgs@, joint_state@, gimbal_tf@, camera_tf@),
    {
        let mut msgs: Vec<TransformedMessage> = Vec::new();
        msgs.push(make_msg("/joint_states", "sensor_msgs/JointState", JOINT_STATE_SCHEMA, joint_state));
        msgs.push(make_msg("/foxglove/gimbal/tf", "foxglove.FrameTransform", FRAME_TRANSFORM_SCHEMA, gimbal_tf));
        msgs.push(make_msg("/foxglove/camera/tf", "foxglove.FrameTransform", FRAME_TRANSFORM_SCHEMA, camera_tf));
        msgs
    }
}


/// Which messages the fused Foxglove transformer writes for one frame.
#[derive(PartialEq, Eq, Structural, Clone, Copy, Debug)]
pub struct FusedPlan {
    /// `/foxglove/map_origin`: the GPS anchor of the 3D scene.
    pub map_origin: bool,
    /// `/foxglove/gps`: the GPS trace.
    pub gps: bool,
    /// `/foxglove/drone/tf`: the drone's pose relative to the anchor.
    pub drone_tf: bool,
}

/// The plan for a frame, given whether the map origin is already fixed and
/// whether the frame has a GPS fix.
pub open spec fn plan_for(origin_fixed: bool, has_fix: bool) -> FusedPlan {
    FusedPlan { map_origin: has_fix && !origin_fixed, gps: has_fix, drone_tf: has_fix }
}

/// Whether the fused Foxglove transformer has fixed its map origin: the
/// first frame with a GPS fix becomes the origin.
pub struct FusedOrigin {
    fixed: bool,
}

impl FusedOrigin {
    pub closed spec fn is_fixed(self) -> bool {
        self.fixed
    }

    /// No origin yet.
    pub fn new() -> (r: Self)
        ensures
            !r.is_fixed(),
    {
        FusedOrigin { fixed: false }
    }

    /// The messages for a frame with (`has_fix`) or without a GPS fix: none
    /// without one; with one the GPS trace and the drone pose, and the map
    /// origin the first time only.
    pub fn plan(&mut self, has_fix: bool) -> (p: FusedPlan)
        ensures
            p == plan_for(old(self).is_fixed(), has_fix),
            final(self).is_fixed() == (old(self).is_fixed() || has_fix),
    {
        let p = FusedPlan { map_origin: has_fix && !self.fixed, gps: has_fix, drone_tf: has_fix };
        if has_fix {
            self.fixed = true;
        }
        p
    }
}

/// The `/foxglove/map_origin` message: the GPS anchor of the 3D scene.
pub fn map_origin_message(payload: Vec<u8>) -> (m: TransformedMessage)
    ensures
        is_json_message(m, "/foxglove/map_origin", "foxglove.LocationFix", LOCATION_FIX_SCHEMA, payload@),
{
    make_msg("/foxglove/map_origin", "foxglove.LocationFix", LOCATION_FIX_SCHEMA, payload)
}

/// The `/foxglove/gps` message: one point of the GPS trace.
pub fn gps_message(payload: Vec<u8>) -> (m: TransformedMessage)
    ensures
        is_json_message(m, "/foxglove/gps", "foxglove.LocationFix", LOCATION_FIX_SCHEMA, payload@),
{
    make_msg("/foxglove/gps", "foxglove.LocationFix", LOCATION_FIX_SCHEMA, payload)
}

/// The `/foxglove/drone/tf` message: the drone's pose in the scene.
pub fn drone_tf_message(payload: Vec<u8>) -> (m: TransformedMessage)
    ensures
        is_json_message(m, "/foxglove/drone/tf", "foxglove.FrameTransform", FRAME_TRANSFORM_SCHEMA, payload@),
{
    make_msg("/foxglove/drone/tf", "foxglove.FrameTransform", FRAME_TRANSFORM_SCHEMA, payload)
}

/// The plans for frames with the given fixes, in turn, from an origin that
/// is fixed or not.
pub open spec fn plans(origin_fixed: bool, fixes: Seq<bool>) -> Seq<FusedPlan>
    decreases fixes.len(),
{
    if fixes.len() == 0 {
        seq![]
    } else {
        seq![plan_for(origin_fixed, fixes[0])] + plans(origin_fixed || fixes[0], fixes.drop_first())
    }
}

/// How many plans write the map origin.
pub open spec fn origin_count(ps: Seq<FusedPlan>) -> nat
    decreases ps.len(),
{
    if ps.len() == 0 {
        0
    } else {
        origin_count(ps.drop_first()) + if ps[0].map_origin {
            1nat
        } else {
            0nat
        }
    }
}

/// The map origin is written once: by the first frame with a GPS fix, and
/// never where no frame has one; every frame with a fix writes the GPS
/// trace and the drone pose, and a frame without one writes nothing.
pub proof fn lemma_map_origin_once(fixes: Seq<bool>)
    ensures
        origin_count(plans(false, fixes)) == (if fixes.contains(true) {
            1nat
        } else {
            0nat
        }),
        forall|i: int|
            0 <= i < fixes.len() ==> (#[trigger] plans(false, fixes)[i]).gps == fixes[i]
                && plans(false, fixes)[i].drone_tf == fixes[i]
                && (plans(false, fixes)[i].map_origin <==> (fixes[i] && forall|j: int|
                0 <= j < i ==> !fixes[j])),
{
    lemma_plans(false, fixes);
}

proof fn lemma_plans(origin_fixed: bool, fixes: Seq<bool>)
    ensures
        plans(origin_fixed, fixes).len() == fixes.len(),
        origin_count(plans(origin_fixed, fixes)) == (if !origin_fixed && fixes.contains(true) {
            1nat
        } else {
            0nat
        }),
        forall|i: int|
            0 <= i < fixes.len() ==> (#[trigger] plans(origin_fixed, fixes)[i]).gps == fixes[i]
                && plans(origin_fixed, fixes)[i].drone_tf == fixes[i]
                && (plans(origin_fixed, fixes)[i].map_origin <==> (!origin_fixed && fixes[i] && forall|j: int|
                0 <= j < i ==> !fixes[j])),
    decreases fixes.len(),
{
    if fixes.len() > 0 {
        let rest = fixes.drop_first();
        let next = origin_fixed || fixes[0];
        lemma_plans(next, rest);
        let ps = plans(origin_fixed, fixes);
        assert(ps.drop_first() =~= plans(next, rest));
        assert(fixes.contains(true) <==> (fixes[0] || rest.contains(true))) by {
            if fixes.contains(true) {
                let k = choose|k: int| 0 <= k < fixes.len() && fixes[k] == true;
                if k > 0 {
                    assert(rest[k - 1] == true);
                }
            }
            if rest.contains(true) {
                let k = choose|k: int| 0 <= k < rest.len() && rest[k] == true;
                assert(fixes[k + 1] == true);
            }
        }
        assert forall|i: int| 0 <= i < fixes.len() implies (#[trigger] ps[i]).gps == fixes[i]
            && ps[i].drone_tf == fixes[i] && (ps[i].map_origin <==> (!origin_fixed && fixes[i]
            && forall|j: int| 0 <= j < i ==> !fixes[j])) by {
            if i > 0 {
                assert(ps[i] == plans(next, rest)[i - 1]);
                assert(rest[i - 1] == fixes[i]);
                if forall|j: int| 0 <= j < i ==> !fixes[j] {
                    assert(!fixes[0]);
                    assert forall|j: int| 0 <= j < i - 1 implies !rest[j] by {
                        assert(rest[j] == fixes[j + 1]);
                    }
                }
                if !next && forall|j: int| 0 <= j < i - 1 ==> !rest[j] {
                    assert forall|j: int| 0 <= j < i implies !fixes[j] by {
                        if j > 0 {
                            assert(rest[j - 1] == fixes[j]);
                        }
                    }
                }
            }
        }
    }
}

} // verus!
