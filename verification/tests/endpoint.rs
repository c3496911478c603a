use herdr::endpoint::{
    ClientSurfaceSize, EndpointClientHello, EndpointServerWelcome, BLOB_CODEC_V1,
    ENDPOINT_PROTOCOL_GENERATION, HEALTH_CHECK_CAPABILITY, INPUT_CODEC_V1,
    PRESENTATION_EFFECTS_FENCE_CAPABILITY, SNAPSHOT_CODEC_V1, SURFACE_CODEC_V1, SURFACE_CODEC_V2,
    SURFACE_INTEREST_CAPABILITY,
};

fn hello() -> EndpointClientHello {
    EndpointClientHello {
        generation: ENDPOINT_PROTOCOL_GENERATION,
        cell_width_px: 8,
        cell_height_px: 16,
        surface_size: ClientSurfaceSize { cols: 80, rows: 24 },
        pixel_mouse: true,
        direct_graphics: false,
        endpoint_keybindings: false,
        mouse_capture: true,
        surface_active: true,
        snapshot_codecs: vec![SNAPSHOT_CODEC_V1.into()],
        surface_codecs: vec![SURFACE_CODEC_V1.into()],
        input_codecs: vec![INPUT_CODEC_V1.into()],
        blob_codecs: vec![BLOB_CODEC_V1.into()],
    }
}

#[test]
fn compatible_server_advertises_endpoint_lifecycle_capabilities() {
    let welcome = EndpointServerWelcome::compatible_with_surface_codec(Vec::new(), false, "1.2.3");
    assert_eq!(
        welcome.capabilities,
        vec![
            SURFACE_INTEREST_CAPABILITY.to_string(),
            PRESENTATION_EFFECTS_FENCE_CAPABILITY.to_string(),
            HEALTH_CHECK_CAPABILITY.to_string(),
        ]
    );
}

#[test]
fn required_codecs_are_explicit() {
    let mut value = hello();
    assert!(value.supports_required_codecs());
    value.snapshot_codecs.clear();
    assert!(!value.supports_required_codecs());

    let mut value = hello();
    value.surface_codecs.clear();
    assert!(!value.supports_required_codecs());

    let mut value = hello();
    value.input_codecs.clear();
    assert!(!value.supports_required_codecs());

    let mut value = hello();
    value.blob_codecs.clear();
    assert!(!value.supports_required_codecs());
}

#[test]
fn generation_one_clients_keep_the_v1_surface_codec() {
    let hello = hello();
    assert!(hello.supports_required_codecs());
    assert!(!hello.supports_surface_v2());
    let welcome = EndpointServerWelcome::compatible_with_surface_codec(
        Vec::new(),
        hello.supports_surface_v2(),
        "1.2.3",
    );
    assert_eq!(welcome.surface_codec, SURFACE_CODEC_V1);
}

#[test]
fn surface_v2_is_selected_only_when_the_client_offers_it() {
    let mut hello = hello();
    hello.surface_codecs = vec![SURFACE_CODEC_V2.into(), SURFACE_CODEC_V1.into()];
    assert!(hello.supports_required_codecs());
    assert!(hello.supports_surface_v2());
    let welcome = EndpointServerWelcome::compatible_with_surface_codec(
        Vec::new(),
        hello.supports_surface_v2(),
        "1.2.3",
    );
    assert_eq!(welcome.surface_codec, SURFACE_CODEC_V2);

    // Offering only v2 is not a compatible core: v1 stays the floor.
    let mut v2_only = hello.clone();
    v2_only.surface_codecs = vec![SURFACE_CODEC_V2.into()];
    assert!(!v2_only.supports_required_codecs());
}

#[test]
fn welcomes_report_the_server_build_version() {
    let welcome = EndpointServerWelcome::compatible_with_surface_codec(Vec::new(), true, "0.9.4");
    assert_eq!(welcome.server_version, "0.9.4");
    let refusal = EndpointServerWelcome::incompatible("unsupported_codecs", "missing", "0.9.4");
    assert_eq!(refusal.server_version, "0.9.4");
    assert_eq!(refusal.error.as_ref().map(|e| e.code.as_str()), Some("unsupported_codecs"));
}
