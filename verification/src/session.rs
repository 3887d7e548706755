//! The session: what is known of the clients, and the settings.

use crate::extrapolation::{
    extrapolate_session_settings_from_session_settings, extrapolated, extrapolation_is_defined,
    field_or_null,
};
use crate::json::{fields_tree, lemma_field_is_added, Json, JsonTree};
use crate::schema::SchemaNode;
use crate::settings::{is_convertible, json_session_settings_to_settings, settings_of};
use crate::settings_laws::{
    conforms, law_conforming_settings_are_taken_over, law_working_in_twice_changes_nothing,
    names_are_distinct,
};
use std::collections::{HashMap, HashSet};
use std::path::PathBuf;
use vstd::prelude::*;

verus! {

/// `std::path::PathBuf`. Paths are only carried along.
#[verifier::external_type_specification]
#[verifier::external_body]
pub struct ExPathBuf(PathBuf);

/// The drivers that were registered before ours.
#[derive(Debug)]
pub struct DriversBackup {
    pub alvr_path: PathBuf,
    pub other_paths: Vec<PathBuf>,
}

/// The bits of a single precision floating point number.
#[derive(Clone, Copy, Debug)]
pub struct SingleBits {
    pub bits: u32,
}

/// What the driver has to know before the first client can be asked. When a client connects, a
/// new configuration is made; the connection is accepted only if the two are equivalent.
#[derive(Debug)]
pub struct OpenvrConfig {
    pub eye_resolution_width: u32,
    pub eye_resolution_height: u32,
    pub target_eye_resolution_width: u32,
    pub target_eye_resolution_height: u32,
    pub tracking_ref_only: bool,
    pub enable_vive_tracker_proxy: bool,
    pub aggressive_keyframe_resend: bool,
    pub adapter_index: u32,
    pub codec: u32,
    pub refresh_rate: u32,
    pub use_10bit_encoder: bool,
    pub enable_vbaq: bool,
    pub use_preproc: bool,
    pub preproc_sigma: u32,
    pub preproc_tor: u32,
    pub amd_encoder_quality_preset: u32,
    pub rate_control_mode: u32,
    pub filler_data: bool,
    pub entropy_coding: u32,
    pub force_sw_encoding: bool,
    pub sw_thread_count: u32,
    pub controller_is_tracker: bool,
    pub controllers_enabled: bool,
    pub enable_foveated_rendering: bool,
    pub foveation_center_size_x: SingleBits,
    pub foveation_center_size_y: SingleBits,
    pub foveation_center_shift_x: SingleBits,
    pub foveation_center_shift_y: SingleBits,
    pub foveation_edge_ratio_x: SingleBits,
    pub foveation_edge_ratio_y: SingleBits,
    pub enable_color_correction: bool,
    pub brightness: SingleBits,
    pub contrast: SingleBits,
    pub saturation: SingleBits,
    pub gamma: SingleBits,
    pub sharpening: SingleBits,
    pub linux_async_reprojection: bool,
    pub nvenc_quality_preset: u32,
    pub nvenc_tuning_preset: u32,
    pub nvenc_multi_pass: u32,
    pub nvenc_adaptive_quantization_mode: u32,
    pub nvenc_low_delay_key_frame_scale: i64,
    pub nvenc_refresh_rate: i64,
    pub enable_intra_refresh: bool,
    pub intra_refresh_period: i64,
    pub intra_refresh_count: i64,
    pub max_num_ref_frames: i64,
    pub gop_length: i64,
    pub p_frame_strategy: i64,
    pub nvenc_rate_control_mode: i64,
    pub rc_buffer_size: i64,
    pub rc_initial_delay: i64,
    pub rc_max_bitrate: i64,
    pub rc_average_bitrate: i64,
    pub nvenc_enable_weighted_prediction: bool,
    pub capture_frame_dir: String,
    pub amd_bitrate_corruption_fix: bool,
    pub _controller_profile: i32,
}

impl OpenvrConfig {
    /// All numbers are 0, nothing is enabled, and the text is empty.
    pub open spec fn is_blank(self) -> bool {
        &&& self.eye_resolution_width == 0
        &&& self.eye_resolution_height == 0
        &&& self.target_eye_resolution_width == 0
        &&& self.target_eye_resolution_height == 0
        &&& !self.tracking_ref_only
        &&& !self.enable_vive_tracker_proxy
        &&& !self.aggressive_keyframe_resend
        &&& self.adapter_index == 0
        &&& self.codec == 0
        &&& self.refresh_rate == 0
        &&& !self.use_10bit_encoder
        &&& !self.enable_vbaq
        &&& !self.use_preproc
        &&& self.preproc_sigma == 0
        &&& self.preproc_tor == 0
        &&& self.amd_encoder_quality_preset == 0
        &&& self.rate_control_mode == 0
        &&& !self.filler_data
        &&& self.entropy_coding == 0
        &&& !self.force_sw_encoding
        &&& self.sw_thread_count == 0
        &&& !self.controller_is_tracker
        &&& !self.controllers_enabled
        &&& !self.enable_foveated_rendering
        &&& self.foveation_center_size_x.bits == 0
        &&& self.foveation_center_size_y.bits == 0
        &&& self.foveation_center_shift_x.bits == 0
        &&& self.foveation_center_shift_y.bits == 0
        &&& self.foveation_edge_ratio_x.bits == 0
        &&& self.foveation_edge_ratio_y.bits == 0
        &&& !self.enable_color_correction
        &&& self.brightness.bits == 0
        &&& self.contrast.bits == 0
        &&& self.saturation.bits == 0
        &&& self.gamma.bits == 0
        &&& self.sharpening.bits == 0
        &&& !self.linux_async_reprojection
        &&& self.nvenc_quality_preset == 0
        &&& self.nvenc_tuning_preset == 0
        &&& self.nvenc_multi_pass == 0
        &&& self.nvenc_adaptive_quantization_mode == 0
        &&& self.nvenc_low_delay_key_frame_scale == 0
        &&& self.nvenc_refresh_rate == 0
        &&& !self.enable_intra_refresh
        &&& self.intra_refresh_period == 0
        &&& self.intra_refresh_count == 0
        &&& self.max_num_ref_frames == 0
        &&& self.gop_length == 0
        &&& self.p_frame_strategy == 0
        &&& self.nvenc_rate_control_mode == 0
        &&& self.rc_buffer_size == 0
        &&& self.rc_initial_delay == 0
        &&& self.rc_max_bitrate == 0
        &&& self.rc_average_bitrate == 0
        &&& !self.nvenc_enable_weighted_prediction
        &&& self.capture_frame_dir@ == Seq::<char>::empty()
        &&& !self.amd_bitrate_corruption_fix
        &&& self._controller_profile == 0
    }

    /// The configuration before any client has connected. The resolution is not one that a
    /// monitor has.
    pub open spec fn is_initial(self) -> bool {
        &&& self.eye_resolution_width == 800
        &&& self.eye_resolution_height == 900
        &&& self.target_eye_resolution_width == 800
        &&& self.target_eye_resolution_height == 900
        &&& !self.tracking_ref_only
        &&& !self.enable_vive_tracker_proxy
        &&& !self.aggressive_keyframe_resend
        &&& self.adapter_index == 0
        &&& self.codec == 0
        &&& self.refresh_rate == 60
        &&& !self.use_10bit_encoder
        &&& !self.enable_vbaq
        &&& !self.use_preproc
        &&& self.preproc_sigma == 0
        &&& self.preproc_tor == 0
        &&& self.amd_encoder_quality_preset == 0
        &&& self.rate_control_mode == 0
        &&& !self.filler_data
        &&& self.entropy_coding == 0
        &&& !self.force_sw_encoding
        &&& self.sw_thread_count == 0
        &&& !self.controller_is_tracker
        &&& !self.controllers_enabled
        &&& !self.enable_foveated_rendering
        &&& self.foveation_center_size_x.bits == 0
        &&& self.foveation_center_size_y.bits == 0
        &&& self.foveation_center_shift_x.bits == 0
        &&& self.foveation_center_shift_y.bits == 0
        &&& self.foveation_edge_ratio_x.bits == 0
        &&& self.foveation_edge_ratio_y.bits == 0
        &&& !self.enable_color_correction
        &&& self.brightness.bits == 0
        &&& self.contrast.bits == 0
        &&& self.saturation.bits == 0
        &&& self.gamma.bits == 0
        &&& self.sharpening.bits == 0
        &&& !self.linux_async_reprojection
        &&& self.nvenc_quality_preset == 0
        &&& self.nvenc_tuning_preset == 0
        &&& self.nvenc_multi_pass == 0
        &&& self.nvenc_adaptive_quantization_mode == 0
        &&& self.nvenc_low_delay_key_frame_scale == 0
        &&& self.nvenc_refresh_rate == 0
        &&& !self.enable_intra_refresh
        &&& self.intra_refresh_period == 0
        &&& self.intra_refresh_count == 0
        &&& self.max_num_ref_frames == 0
        &&& self.gop_length == 0
        &&& self.p_frame_strategy == 0
        &&& self.nvenc_rate_control_mode == 0
        &&& self.rc_buffer_size == 0
        &&& self.rc_initial_delay == 0
        &&& self.rc_max_bitrate == 0
        &&& self.rc_average_bitrate == 0
        &&& !self.nvenc_enable_weighted_prediction
        &&& self.capture_frame_dir@ == "/tmp"@
        &&& !self.amd_bitrate_corruption_fix
        &&& self._controller_profile == 0
    }

    /// The configuration before any client has connected.
    pub fn initial() -> (config: OpenvrConfig)
        ensures
            config.is_initial(),
    {
        let mut config = OpenvrConfig::default();
        config.eye_resolution_width = 800;
        config.eye_resolution_height = 900;
        config.target_eye_resolution_width = 800;
        config.target_eye_resolution_height = 900;
        config.refresh_rate = 60;
        config.capture_frame_dir = "/tmp".to_owned();
        config
    }
}

impl Default for OpenvrConfig {
    fn default() -> (config: OpenvrConfig)
        ensures
            config.is_blank(),
    {
        OpenvrConfig {
            eye_resolution_width: 0,
            eye_resolution_height: 0,
            target_eye_resolution_width: 0,
            target_eye_resolution_height: 0,
            tracking_ref_only: false,
            enable_vive_tracker_proxy: false,
            aggressive_keyframe_resend: false,
            adapter_index: 0,
            codec: 0,
            refresh_rate: 0,
            use_10bit_encoder: false,
            enable_vbaq: false,
            use_preproc: false,
            preproc_sigma: 0,
            preproc_tor: 0,
            amd_encoder_quality_preset: 0,
            rate_control_mode: 0,
            filler_data: false,
            entropy_coding: 0,
            force_sw_encoding: false,
            sw_thread_count: 0,
            controller_is_tracker: false,
            controllers_enabled: false,
            enable_foveated_rendering: false,
            foveation_center_size_x: SingleBits { bits: 0 },
            foveation_center_size_y: SingleBits { bits: 0 },
            foveation_center_shift_x: SingleBits { bits: 0 },
            foveation_center_shift_y: SingleBits { bits: 0 },
            foveation_edge_ratio_x: SingleBits { bits: 0 },
            foveation_edge_ratio_y: SingleBits { bits: 0 },
            enable_color_correction: false,
            brightness: SingleBits { bits: 0 },
            contrast: SingleBits { bits: 0 },
            saturation: SingleBits { bits: 0 },
            gamma: SingleBits { bits: 0 },
            sharpening: SingleBits { bits: 0 },
            linux_async_reprojection: false,
            nvenc_quality_preset: 0,
            nvenc_tuning_preset: 0,
            nvenc_multi_pass: 0,
            nvenc_adaptive_quantization_mode: 0,
            nvenc_low_delay_key_frame_scale: 0,
            nvenc_refresh_rate: 0,
            enable_intra_refresh: false,
            intra_refresh_period: 0,
            intra_refresh_count: 0,
            max_num_ref_frames: 0,
            gop_length: 0,
            p_frame_strategy: 0,
            nvenc_rate_control_mode: 0,
            rc_buffer_size: 0,
            rc_initial_delay: 0,
            rc_max_bitrate: 0,
            rc_average_bitrate: 0,
            nvenc_enable_weighted_prediction: false,
            capture_frame_dir: String::new(),
            amd_bitrate_corruption_fix: false,
            _controller_profile: 0,
        }
    }
}

#[derive(Clone, Copy, Debug, PartialEq, Eq, Structural)]
pub enum ConnectionState {
    Disconnected,
    Connecting,
    Connected,
    Streaming,
    Disconnecting { should_be_removed: bool },
}

/// The address of a host.
#[derive(Clone, Copy, Debug, PartialEq, Eq, Hash)]
pub enum IpAddress {
    V4([u8; 4]),
    V6([u8; 16]),
}

#[derive(Debug)]
pub struct ClientConnectionConfig {
    pub display_name: String,
    pub current_ip: Option<IpAddress>,
    pub manual_ips: HashSet<IpAddress>,
    pub trusted: bool,
    pub connection_state: ConnectionState,
}

/// The session. The clients are found by their host names.
#[derive(Debug)]
pub struct SessionConfig {
    pub server_version: String,
    pub drivers_backup: Option<DriversBackup>,
    pub openvr_config: OpenvrConfig,
    pub client_connections: HashMap<String, ClientConnectionConfig>,
    pub session_settings: Json,
}

/// What is worked out of a session that cannot be read as it is.
pub struct MergePlan {
    /// The fields of the session, with the initial settings.
    pub session: Json,
    /// The settings, if there are any in the session that cannot be read.
    pub session_settings: Option<Json>,
}

/// What the fields of a stored session are: those of the session that it is merged into, with the
/// stored value where there is one. The settings among them are the initial ones.
pub open spec fn merged_fields(
    old: Map<Seq<char>, JsonTree>,
    new: JsonTree,
    initial_settings: JsonTree,
) -> Map<Seq<char>, JsonTree> {
    Map::new(
        |name: Seq<char>| old.contains_key(name),
        |name: Seq<char>|
            if name == "session_settings"@ {
                initial_settings
            } else {
                match new.get(name) {
                    Some(value) => value,
                    None => old[name],
                }
            },
    )
}

/// What the settings of a stored session become.
pub open spec fn merged_settings(old: JsonTree, new: JsonTree, schema: SchemaNode) -> Option<
    JsonTree,
> {
    match new.get("session_settings"@) {
        Some(settings) => Some(extrapolated(old.field("session_settings"@), settings, schema)),
        None => None,
    }
}

/// A session that was read: as it is, or in the parts that were worked out of it.
pub enum ParsedSession {
    Whole(SessionConfig),
    Parts {
        /// The session with the initial settings, or no session if the fields could not be read.
        session: Option<SessionConfig>,
        /// The settings, or why there are none.
        session_settings: Result<Json, String>,
    },
}

impl SessionConfig {
    /// A session without clients.
    pub fn initial(server_version: String, session_settings: Json) -> (session: SessionConfig)
        ensures
            session.server_version@ == server_version@,
            session.drivers_backup is None,
            session.openvr_config.is_initial(),
            session.client_connections@ == Map::<String, ClientConnectionConfig>::empty(),
            session.session_settings.tree() == session_settings.tree(),
    {
        SessionConfig {
            server_version,
            drivers_backup: None,
            openvr_config: OpenvrConfig::initial(),
            client_connections: HashMap::new(),
            session_settings,
        }
    }

    /// Works out as much as possible of a stored session that cannot be read as it is. `session`
    /// is the session that it is merged into.
    pub fn plan_merge(
        session: &Json,
        json_value: &Json,
        initial_settings: &Json,
        schema: &SchemaNode,
    ) -> (plan: MergePlan)
        requires
            session.tree() is Object,
            match json_value.tree().get("session_settings"@) {
                Some(settings) => extrapolation_is_defined(
                    session.tree().field("session_settings"@),
                    settings,
                    *schema,
                ),
                None => true,
            },
        ensures
            plan.session.tree() == JsonTree::Object(
                merged_fields(
                    session.tree()->Object_0,
                    json_value.tree(),
                    initial_settings.tree(),
                ),
            ),
            match plan.session_settings {
                Some(settings) => merged_settings(session.tree(), json_value.tree(), *schema)
                    == Some(settings.tree()),
                None => merged_settings(session.tree(), json_value.tree(), *schema) is None,
            },
    {
        let session_settings = match json_value.get("session_settings") {
            Some(new_session_settings) => {
                let old_session_settings = field_or_null(session, "session_settings");
                Some(
                    extrapolate_session_settings_from_session_settings(
                        &old_session_settings,
                        new_session_settings,
                        schema,
                    ),
                )
            },
            None => None,
        };
        let mut new_fields: Vec<(String, Json)> = Vec::new();
        if let Json::Object(fields) = session {
            let settings_name = "session_settings".to_owned();
            let ghost new = json_value.tree();
            let ghost initial = initial_settings.tree();
            let mut i: usize = 0;
            assert(fields_tree(new_fields@) =~= merged_fields(
                fields_tree(fields@.take(0)),
                new,
                initial,
            ));
            while i < fields.len()
                invariant
                    i <= fields@.len(),
                    settings_name@ == "session_settings"@,
                    new == json_value.tree(),
                    initial == initial_settings.tree(),
                    fields_tree(new_fields@) == merged_fields(
                        fields_tree(fields@.take(i as int)),
                        new,
                        initial,
                    ),
                decreases fields@.len() - i,
            {
                let name = &fields[i].0;
                let value = if *name == settings_name {
                    initial_settings.clone()
                } else {
                    match json_value.get(name.as_str()) {
                        Some(value) => value.clone(),
                        None => fields[i].1.clone(),
                    }
                };
                let ghost before = new_fields@;
                new_fields.push((name.clone(), value));
                proof {
                    lemma_field_is_added(before, new_fields@.last());
                    assert(fields@.take(i + 1).drop_last() =~= fields@.take(i as int));
                    assert(fields_tree(new_fields@) =~= merged_fields(
                        fields_tree(fields@.take(i + 1)),
                        new,
                        initial,
                    ));
                }
                i += 1;
            }
            assert(fields@.take(i as int) =~= fields@);
        }
        MergePlan { session: Json::Object(new_fields), session_settings }
    }

    /// Takes over a stored session. What could be read of it is kept; the initial session stands
    /// in for fields that could not be read, which is not reported.
    pub fn merge_from_json(
        &mut self,
        parsed: ParsedSession,
        initial: SessionConfig,
    ) -> (result: Result<(), String>)
        ensures
            match parsed {
                ParsedSession::Whole(session) => *final(self) == session && result is Ok,
                ParsedSession::Parts { session, session_settings } => {
                    let rest = match session {
                        Some(session) => session,
                        None => initial,
                    };
                    match session_settings {
                        Ok(settings) => *final(self) == (SessionConfig {
                            session_settings: settings,
                            ..rest
                        }) && result is Ok,
                        Err(cause) => *final(self) == rest && result is Err && result->Err_0@
                            == "Error while deserializing extrapolated session settings: "@
                            + cause@,
                    }
                },
            },
    {
        match parsed {
            ParsedSession::Whole(session) => {
                *self = session;
                Ok(())
            },
            ParsedSession::Parts { session, session_settings } => {
                let mut rest = match session {
                    Some(session) => session,
                    None => initial,
                };
                match session_settings {
                    Ok(settings) => {
                        rest.session_settings = settings;
                        *self = rest;
                        Ok(())
                    },
                    Err(cause) => {
                        *self = rest;
                        let mut message =
                            "Error while deserializing extrapolated session settings: ".to_owned();
                        message.append(cause.as_str());
                        Err(message)
                    },
                }
            },
        }
    }

    /// The settings in use.
    pub fn to_settings(&self, schema: &SchemaNode) -> (settings: Json)
        requires
            is_convertible(self.session_settings.tree(), *schema),
        ensures
            settings.tree() == settings_of(self.session_settings.tree(), *schema),
    {
        json_session_settings_to_settings(&self.session_settings, schema)
    }
}

/// A session that is merged into itself is kept.
pub proof fn law_own_session_is_kept(session: Map<Seq<char>, JsonTree>, schema: SchemaNode)
    requires
        session.contains_key("session_settings"@),
        conforms(session["session_settings"@], schema),
        names_are_distinct(schema),
    ensures
        merged_fields(session, JsonTree::Object(session), session["session_settings"@]) == session,
        merged_settings(JsonTree::Object(session), JsonTree::Object(session), schema) == Some(
            session["session_settings"@],
        ),
{
    law_conforming_settings_are_taken_over(
        session["session_settings"@],
        session["session_settings"@],
        schema,
    );
    assert(merged_fields(session, JsonTree::Object(session), session["session_settings"@])
        =~= session);
}

/// Stored settings of the right shape are taken over, whatever session they are merged into.
pub proof fn law_stored_settings_are_taken_over(
    session: JsonTree,
    stored: Map<Seq<char>, JsonTree>,
    schema: SchemaNode,
)
    requires
        stored.contains_key("session_settings"@),
        conforms(stored["session_settings"@], schema),
        names_are_distinct(schema),
    ensures
        merged_settings(session, JsonTree::Object(stored), schema) == Some(
            stored["session_settings"@],
        ),
{
    law_conforming_settings_are_taken_over(
        session.field("session_settings"@),
        stored["session_settings"@],
        schema,
    );
}

/// A merged session has the fields of the session that was merged into, and no others. A field that
/// the stored session has too has the stored value, whatever kind of value it is. Only the settings
/// are the initial ones: those that are stored are worked into those of the session instead.
pub proof fn law_stored_fields_are_taken_over(
    session: Map<Seq<char>, JsonTree>,
    stored: Map<Seq<char>, JsonTree>,
    initial_settings: JsonTree,
    schema: SchemaNode,
    name: Seq<char>,
)
    ensures
        ({
            let merged = merged_fields(session, JsonTree::Object(stored), initial_settings);
            &&& merged.contains_key(name) <==> session.contains_key(name)
            &&& session.contains_key(name) && name != "session_settings"@ && stored.contains_key(
                name,
            ) ==> merged[name] == stored[name]
            &&& session.contains_key(name) && name != "session_settings"@ && !stored.contains_key(
                name,
            ) ==> merged[name] == session[name]
            &&& session.contains_key("session_settings"@) ==> merged["session_settings"@]
                == initial_settings
        }),
        stored.contains_key("session_settings"@) && session.contains_key("session_settings"@)
            ==> merged_settings(JsonTree::Object(session), JsonTree::Object(stored), schema)
            == Some(
            extrapolated(session["session_settings"@], stored["session_settings"@], schema),
        ),
        !stored.contains_key("session_settings"@) ==> merged_settings(
            JsonTree::Object(session),
            JsonTree::Object(stored),
            schema,
        ) is None,
{
    let old = JsonTree::Object(session);
    if session.contains_key("session_settings"@) {
        assert(old.field("session_settings"@) == session["session_settings"@]);
    }
}

/// Merging the same stored session twice is the same as merging it once.
pub proof fn law_merging_twice_changes_nothing(
    session: Map<Seq<char>, JsonTree>,
    stored: JsonTree,
    initial_settings: JsonTree,
    schema: SchemaNode,
)
    requires
        session.contains_key("session_settings"@),
        stored.get("session_settings"@) is Some,
        names_are_distinct(schema),
    ensures
        ({
            let settings = merged_settings(JsonTree::Object(session), stored, schema);
            let merged = merged_fields(session, stored, initial_settings).insert(
                "session_settings"@,
                settings->0,
            );
            &&& merged_fields(merged, stored, initial_settings) == merged_fields(
                session,
                stored,
                initial_settings,
            )
            &&& merged_settings(JsonTree::Object(merged), stored, schema) == settings
        }),
{
    let settings = merged_settings(JsonTree::Object(session), stored, schema);
    let once = merged_fields(session, stored, initial_settings);
    let merged = once.insert("session_settings"@, settings->0);
    assert(merged_fields(merged, stored, initial_settings) =~= once);
    law_working_in_twice_changes_nothing(
        session["session_settings"@],
        stored.field("session_settings"@),
        schema,
    );
}

/// A stored session that says nothing of a field leaves it as it is, and one that has a field
/// that the session does not know changes nothing.
pub proof fn law_unknown_session_fields_are_ignored(
    session: Map<Seq<char>, JsonTree>,
    new: Map<Seq<char>, JsonTree>,
    initial_settings: JsonTree,
    name: Seq<char>,
    value: JsonTree,
)
    requires
        !session.contains_key(name),
    ensures
        merged_fields(session, JsonTree::Object(new.insert(name, value)), initial_settings)
            == merged_fields(session, JsonTree::Object(new), initial_settings),
        forall|known: Seq<char>|
            session.contains_key(known) && !new.contains_key(known) && known
                != "session_settings"@ ==> #[trigger] merged_fields(
                session,
                JsonTree::Object(new),
                initial_settings,
            )[known] == session[known],
{
    assert(merged_fields(session, JsonTree::Object(new.insert(name, value)), initial_settings)
        =~= merged_fields(session, JsonTree::Object(new), initial_settings));
}

/// In a blank configuration every number is 0, no flag is set, and the text is empty.
pub proof fn law_blank_configuration_is_all_zero(config: OpenvrConfig)
    requires
        config.is_blank(),
    ensures
        seq![
            config.eye_resolution_width,
            config.eye_resolution_height,
            config.target_eye_resolution_width,
            config.target_eye_resolution_height,
            config.adapter_index,
            config.codec,
            config.refresh_rate,
            config.preproc_sigma,
            config.preproc_tor,
            config.amd_encoder_quality_preset,
            config.rate_control_mode,
            config.entropy_coding,
            config.sw_thread_count,
            config.nvenc_quality_preset,
            config.nvenc_tuning_preset,
            config.nvenc_multi_pass,
            config.nvenc_adaptive_quantization_mode,
        ] == Seq::new(17, |i: int| 0u32),
        seq![
            config.tracking_ref_only,
            config.enable_vive_tracker_proxy,
            config.aggressive_keyframe_resend,
            config.use_10bit_encoder,
            config.enable_vbaq,
            config.use_preproc,
            config.filler_data,
            config.force_sw_encoding,
            config.controller_is_tracker,
            config.controllers_enabled,
            config.enable_foveated_rendering,
            config.enable_color_correction,
            config.linux_async_reprojection,
            config.enable_intra_refresh,
            config.nvenc_enable_weighted_prediction,
            config.amd_bitrate_corruption_fix,
        ] == Seq::new(16, |i: int| false),
        seq![
            config.foveation_center_size_x.bits,
            config.foveation_center_size_y.bits,
            config.foveation_center_shift_x.bits,
            config.foveation_center_shift_y.bits,
            config.foveation_edge_ratio_x.bits,
            config.foveation_edge_ratio_y.bits,
            config.brightness.bits,
            config.contrast.bits,
            config.saturation.bits,
            config.gamma.bits,
            config.sharpening.bits,
        ] == Seq::new(11, |i: int| 0u32),
        seq![
            config.nvenc_low_delay_key_frame_scale,
            config.nvenc_refresh_rate,
            config.intra_refresh_period,
            config.intra_refresh_count,
            config.max_num_ref_frames,
            config.gop_length,
            config.p_frame_strategy,
            config.nvenc_rate_control_mode,
            config.rc_buffer_size,
            config.rc_initial_delay,
            config.rc_max_bitrate,
            config.rc_average_bitrate,
        ] == Seq::new(12, |i: int| 0i64),
        config.capture_frame_dir@.len() == 0,
        config._controller_profile == 0,
{
}

/// The configuration before any client has connected is the blank one, but for 800 by 900 pixels
/// for each eye, 60 frames per second, and a folder for the captured frames.
pub proof fn law_initial_configuration_has_a_picture(initial: OpenvrConfig, blank: OpenvrConfig)
    requires
        initial.is_initial(),
        blank.is_blank(),
    ensures
        (OpenvrConfig {
            eye_resolution_width: 800,
            eye_resolution_height: 900,
            target_eye_resolution_width: 800,
            target_eye_resolution_height: 900,
            refresh_rate: 60,
            capture_frame_dir: initial.capture_frame_dir,
            ..blank
        }) == initial,
        initial.capture_frame_dir@ == seq!['/', 't', 'm', 'p'],
{
    reveal_strlit("/tmp");
}

} // verus!
