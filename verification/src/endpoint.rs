//! Stable endpoint compatibility contract for client-owned shells.
//!
//! The endpoint generation is independent from the private binary protocol
//! used by same-install CLI, direct-terminal, and handoff paths. Generation 1
//! is the compatibility floor for Local, SSH, and Cloud shell endpoints. New
//! JSON fields must be optional or have defaults; unknown named controls are
//! optional and ignored unless negotiated as part of the core.
//!
//! The JSON encodings of these messages live beside the application; this
//! module holds the messages and the negotiation rules.

use vstd::prelude::*;

verus! {

pub const ENDPOINT_PROTOCOL_GENERATION: u32 = 1;

pub const ENDPOINT_HELLO_KIND: &'static str = "endpoint.hello.v1";

pub const ENDPOINT_WELCOME_KIND: &'static str = "endpoint.welcome.v1";

pub const SNAPSHOT_CODEC_V1: &'static str = "shell.snapshot.v1";

pub const ENDPOINT_SNAPSHOT_KIND: &'static str = "shell.snapshot.v1";

pub const SURFACE_CODEC_V1: &'static str = "shell.surface.v1";

/// The generation-1 surface stream plus one named control message.
///
/// This codec does not change a single surface byte; the only difference is
/// that a v2 client also receives [`POPUP_SURFACE_METRICS_KIND`] immediately
/// before every popup-bearing surface frame.
pub const SURFACE_CODEC_V2: &'static str = "shell.surface.v2";

pub const POPUP_SURFACE_METRICS_KIND: &'static str = "shell.surface.popup.v2";

pub const INPUT_CODEC_V1: &'static str = "shell.input.semantic.v1";

pub const BLOB_CODEC_V1: &'static str = "shell.blob.v1";

pub const SURFACE_INTEREST_CAPABILITY: &'static str = "surface_interest";

pub const PRESENTATION_EFFECTS_FENCE_CAPABILITY: &'static str = "presentation_effects_fence";

pub const PRESENTATION_EFFECTS_SYNC_KIND: &'static str = "endpoint.presentation.sync.v1";

pub const PRESENTATION_EFFECTS_READY_KIND: &'static str = "endpoint.presentation.ready.v1";

pub const HEALTH_CHECK_CAPABILITY: &'static str = "health_check";

pub const HEALTH_PING_KIND: &'static str = "endpoint.health.ping.v1";

pub const HEALTH_PONG_KIND: &'static str = "endpoint.health.pong.v1";


/// The value a hello that omits `surface_active` decodes to.
pub fn default_true() -> (b: bool)
    ensures
        b,
{
    true
}

/// The client's surface size in cells.
#[derive(Debug, Clone, Copy, PartialEq, Eq, Structural)]
pub struct ClientSurfaceSize {
    pub cols: u16,
    pub rows: u16,
}

/// Scroll position of a terminal's viewport in its scrollback.
#[derive(Debug, Clone, Copy, PartialEq, Eq, Structural)]
pub struct PaneSurfaceScrollMetrics {
    pub offset_from_bottom: u64,
    pub max_offset_from_bottom: u64,
    pub viewport_rows: u64,
}

#[derive(Debug, Clone, PartialEq, Eq)]
pub struct EndpointClientHello {
    pub generation: u32,
    pub cell_width_px: u32,
    pub cell_height_px: u32,
    pub surface_size: ClientSurfaceSize,
    pub pixel_mouse: bool,
    pub direct_graphics: bool,
    pub endpoint_keybindings: bool,
    pub mouse_capture: bool,
    pub surface_active: bool,
    pub snapshot_codecs: Vec<String>,
    pub surface_codecs: Vec<String>,
    pub input_codecs: Vec<String>,
    pub blob_codecs: Vec<String>,
}

/// Popup terminal facts that the pane surface frame cannot carry.
///
/// `surface_revision` names the one surface frame these metrics belong to; a
/// client must stage them and commit only against that frame.
#[derive(Debug, Clone, PartialEq, Eq)]
pub struct PopupSurfaceMetrics {
    /// Revision of the popup surface frame these metrics describe.
    pub surface_revision: u64,
    pub terminal_id: String,
    pub content_revision: u64,
    /// Whether the popup terminal is on its alternate screen.
    pub alternate_screen_active: bool,
    pub scroll: Option<PaneSurfaceScrollMetrics>,
}

/// Both metrics describe the same popup state, the frame stamp aside.
pub open spec fn same_popup_state(a: PopupSurfaceMetrics, b: PopupSurfaceMetrics) -> bool {
    &&& a.terminal_id@ == b.terminal_id@
    &&& a.content_revision == b.content_revision
    &&& a.alternate_screen_active == b.alternate_screen_active
    &&& a.scroll == b.scroll
}

fn same_scroll(a: &Option<PaneSurfaceScrollMetrics>, b: &Option<PaneSurfaceScrollMetrics>) -> (r:
    bool)
    ensures
        r == (*a == *b),
{
    match (a, b) {
        (Some(x), Some(y)) => x.offset_from_bottom == y.offset_from_bottom
            && x.max_offset_from_bottom == y.max_offset_from_bottom && x.viewport_rows
            == y.viewport_rows,
        (None, None) => true,
        _ => false,
    }
}

impl PopupSurfaceMetrics {
    /// Whether both describe the same popup state, ignoring the frame stamp.
    ///
    /// The server compares metrics before a surface revision is assigned, so
    /// the stamp cannot take part in change detection.
    pub fn describes_same_state(&self, other: &Self) -> (same: bool)
        ensures
            same == same_popup_state(*self, *other),
    {
        self.terminal_id == other.terminal_id && self.content_revision == other.content_revision
            && self.alternate_screen_active == other.alternate_screen_active && same_scroll(
            &self.scroll,
            &other.scroll,
        )
    }
}

#[derive(Debug, Clone, PartialEq, Eq)]
pub struct EndpointHandshakeError {
    pub code: String,
    pub message: String,
}

#[derive(Debug, Clone, PartialEq, Eq)]
pub struct EndpointServerWelcome {
    pub generation: u32,
    pub server_version: String,
    pub snapshot_codec: String,
    pub surface_codec: String,
    pub input_codec: String,
    pub blob_codec: String,
    pub methods: Vec<String>,
    pub capabilities: Vec<String>,
    pub error: Option<EndpointHandshakeError>,
}

/// The texts of a list of strings.
pub open spec fn texts(v: Seq<String>) -> Seq<Seq<char>> {
    v.map_values(|s: String| s@)
}

/// Whether `codec` is among `offered`.
pub open spec fn offers(offered: Seq<String>, codec: Seq<char>) -> bool {
    texts(offered).contains(codec)
}

fn offers_exec(offered: &Vec<String>, codec: &str) -> (found: bool)
    ensures
        found == offers(offered@, codec@),
{
    let wanted = codec.to_owned();
    let n = offered.len();
    let mut i: usize = 0;
    while i < n
        invariant
            n == offered@.len(),
            i <= n,
            wanted@ == codec@,
            forall|j: int| 0 <= j < i ==> offered@[j]@ != codec@,
        decreases n - i,
    {
        if offered[i] == wanted {
            assert(texts(offered@)[i as int] == codec@);
            return true;
        }
        i = i + 1;
    }
    proof {
        if texts(offered@).contains(codec@) {
            let j = choose|j: int| 0 <= j < texts(offered@).len() && texts(offered@)[j] == codec@;
            assert(offered@[j]@ == codec@);
        }
    }
    false
}

impl EndpointClientHello {
    /// Whether the client offers every generation-1 core codec: snapshot,
    /// surface v1, input and blob.
    pub fn supports_required_codecs(&self) -> (supported: bool)
        ensures
            supported == (offers(self.snapshot_codecs@, SNAPSHOT_CODEC_V1@) && offers(
                self.surface_codecs@,
                SURFACE_CODEC_V1@,
            ) && offers(self.input_codecs@, INPUT_CODEC_V1@) && offers(
                self.blob_codecs@,
                BLOB_CODEC_V1@,
            )),
    {
        offers_exec(&self.snapshot_codecs, SNAPSHOT_CODEC_V1) && offers_exec(
            &self.surface_codecs,
            SURFACE_CODEC_V1,
        ) && offers_exec(&self.input_codecs, INPUT_CODEC_V1) && offers_exec(
            &self.blob_codecs,
            BLOB_CODEC_V1,
        )
    }

    /// Whether this client also accepts the popup metrics control that rides
    /// beside the generation-1 surface frames.
    pub fn supports_surface_v2(&self) -> (supported: bool)
        ensures
            supported == offers(self.surface_codecs@, SURFACE_CODEC_V2@),
    {
        offers_exec(&self.surface_codecs, SURFACE_CODEC_V2)
    }
}

/// What every welcome names, whatever the outcome: generation 1, the
/// server's build version, and the fixed snapshot, input and blob codecs.
pub open spec fn welcome_core(w: EndpointServerWelcome, server_version: Seq<char>) -> bool {
    &&& w.generation == ENDPOINT_PROTOCOL_GENERATION
    &&& w.server_version@ == server_version
    &&& w.snapshot_codec@ == SNAPSHOT_CODEC_V1@
    &&& w.input_codec@ == INPUT_CODEC_V1@
    &&& w.blob_codec@ == BLOB_CODEC_V1@
}

impl EndpointServerWelcome {
    /// Builds the welcome, selecting the surface codec the client offered.
    ///
    /// `shell.surface.v1` stays the floor: a client that offers only v1 keeps
    /// exactly the generation-1 stream. `server_version` is the version of
    /// this build, which the welcome reports.
    pub fn compatible_with_surface_codec(methods: Vec<String>, surface_v2: bool, server_version: &str) -> (w: Self)
        ensures
            welcome_core(w, server_version@),
            w.surface_codec@ == (if surface_v2 {
                SURFACE_CODEC_V2@
            } else {
                SURFACE_CODEC_V1@
            }),
            w.methods@ == methods@,
            texts(w.capabilities@) == seq![
                SURFACE_INTEREST_CAPABILITY@,
                PRESENTATION_EFFECTS_FENCE_CAPABILITY@,
                HEALTH_CHECK_CAPABILITY@,
            ],
            w.error is None,
    {
        let surface_codec = if surface_v2 {
            SURFACE_CODEC_V2.to_owned()
        } else {
            SURFACE_CODEC_V1.to_owned()
        };
        let mut capabilities: Vec<String> = Vec::new();
        capabilities.push(SURFACE_INTEREST_CAPABILITY.to_owned());
        capabilities.push(PRESENTATION_EFFECTS_FENCE_CAPABILITY.to_owned());
        capabilities.push(HEALTH_CHECK_CAPABILITY.to_owned());
        let w = EndpointServerWelcome {
            generation: ENDPOINT_PROTOCOL_GENERATION,
            server_version: server_version.to_owned(),
            snapshot_codec: SNAPSHOT_CODEC_V1.to_owned(),
            surface_codec,
            input_codec: INPUT_CODEC_V1.to_owned(),
            blob_codec: BLOB_CODEC_V1.to_owned(),
            methods,
            capabilities,
            error: None,
        };
        assert(texts(w.capabilities@) =~= seq![
            SURFACE_INTEREST_CAPABILITY@,
            PRESENTATION_EFFECTS_FENCE_CAPABILITY@,
            HEALTH_CHECK_CAPABILITY@,
        ]);
        w
    }

    /// Builds the welcome that refuses a client: the generation-1 codecs, no
    /// methods or capabilities, and the handshake error `code`/`message`;
    /// it too reports `server_version`, the version of this build.
    pub fn incompatible(code: &str, message: &str, server_version: &str) -> (w: Self)
        ensures
            welcome_core(w, server_version@),
            w.surface_codec@ == SURFACE_CODEC_V1@,
            w.methods@.len() == 0,
            w.capabilities@.len() == 0,
            w.error matches Some(e) && e.code@ == code@ && e.message@ == message@,
    {
        EndpointServerWelcome {
            generation: ENDPOINT_PROTOCOL_GENERATION,
            server_version: server_version.to_owned(),
            snapshot_codec: SNAPSHOT_CODEC_V1.to_owned(),
            surface_codec: SURFACE_CODEC_V1.to_owned(),
            input_codec: INPUT_CODEC_V1.to_owned(),
            blob_codec: BLOB_CODEC_V1.to_owned(),
            methods: Vec::new(),
            capabilities: Vec::new(),
            error: Some(EndpointHandshakeError { code: code.to_owned(), message: message.to_owned() }),
        }
    }
}


/// The client offers the whole generation-1 core.
pub open spec fn offers_required_codecs(hello: EndpointClientHello) -> bool {
    &&& offers(hello.snapshot_codecs@, SNAPSHOT_CODEC_V1@)
    &&& offers(hello.surface_codecs@, SURFACE_CODEC_V1@)
    &&& offers(hello.input_codecs@, INPUT_CODEC_V1@)
    &&& offers(hello.blob_codecs@, BLOB_CODEC_V1@)
}

/// Negotiation never picks a surface codec the client did not offer: when a
/// client with the generation-1 core is welcomed with the codec its
/// `supports_surface_v2` selects, that codec is among the client's offers,
/// and it is v2 exactly when the client offered v2.
pub proof fn law_negotiated_surface_codec_is_offered(
    hello: EndpointClientHello,
    welcome: EndpointServerWelcome,
)
    requires
        offers_required_codecs(hello),
        welcome.surface_codec@ == (if offers(hello.surface_codecs@, SURFACE_CODEC_V2@) {
            SURFACE_CODEC_V2@
        } else {
            SURFACE_CODEC_V1@
        }),
    ensures
        offers(hello.surface_codecs@, welcome.surface_codec@),
        (welcome.surface_codec@ == SURFACE_CODEC_V2@) == offers(
            hello.surface_codecs@,
            SURFACE_CODEC_V2@,
        ),
{
    reveal_strlit("shell.surface.v1");
    reveal_strlit("shell.surface.v2");
    assert(SURFACE_CODEC_V1@ != SURFACE_CODEC_V2@) by {
        assert(SURFACE_CODEC_V1@[15] != SURFACE_CODEC_V2@[15]);
    }
}

} // verus!
