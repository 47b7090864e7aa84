use tokimo_package_hls::hw_detect::{
    apply_hw_presence_gates, get_hw_capabilities, is_dri_render_device_name, is_nvidia_gpu_device_name,
    resolve_ffmpeg_binary, wants_cuvid_probe, EnvFinding, FfmpegChoice, HwCapabilities, HwFindings, Platform,
};
use tokimo_package_hls::pipeline::{select_backend, HwBackend};

fn everything() -> HwCapabilities {
    HwCapabilities {
        has_nvenc: true,
        has_nvenc_hevc: true,
        has_cuvid: true,
        has_cuda_full: true,
        has_bwdif_cuda: true,
        cuvid_hw_codecs: vec!["h264".to_string()],
        has_vaapi: true,
        has_vaapi_full: true,
        has_vaapi_hevc: true,
        has_qsv: true,
        has_qsv_full: true,
        has_qsv_hevc: true,
        has_amf: true,
        has_amf_hevc: true,
        has_rkmpp: true,
        has_rkmpp_hevc: true,
        has_videotoolbox: true,
        has_videotoolbox_full: true,
        has_videotoolbox_hevc: true,
        has_videotoolbox_tonemap: true,
        has_tonemap: true,
        has_tonemapx: true,
        has_zscale: true,
        has_bwdif: true,
        has_libx265: true,
    }
}

fn nothing_found() -> HwFindings {
    HwFindings {
        i915_entries: None,
        xe_entries: None,
        amdgpu_entries: None,
        nvidia_control: false,
        device_names: vec!["null".to_string(), "nvidiactl".to_string()],
        dri_names: vec!["card0".to_string()],
        nvidia_vaapi_driver: false,
        rockchip_device: false,
    }
}

#[test]
fn identifies_only_numbered_nvidia_gpu_nodes() {
    assert!(is_nvidia_gpu_device_name("nvidia0"));
    assert!(is_nvidia_gpu_device_name("nvidia12"));
    assert!(!is_nvidia_gpu_device_name("nvidiactl"));
    assert!(!is_nvidia_gpu_device_name("nvidia-uvm"));
    assert!(!is_nvidia_gpu_device_name("nvidia"));
}

#[test]
fn identifies_only_drm_render_nodes() {
    assert!(is_dri_render_device_name("renderD128"));
    assert!(is_dri_render_device_name("renderD129"));
    assert!(!is_dri_render_device_name("card0"));
    assert!(!is_dri_render_device_name("renderD"));
    assert!(!is_dri_render_device_name("renderDfoo"));
}

#[test]
fn a_bare_linux_machine_is_left_with_software() {
    let mut caps = everything();
    apply_hw_presence_gates(&mut caps, &nothing_found(), Platform::Linux);
    assert_eq!(select_backend(&caps), HwBackend::Software);
    assert!(!caps.has_cuda_full && !caps.has_bwdif_cuda && caps.cuvid_hw_codecs.is_empty());
    assert!(!caps.has_vaapi_full && !caps.has_qsv_full && !caps.has_amf_hevc && !caps.has_rkmpp_hevc);
    assert!(!caps.has_videotoolbox_tonemap);
    assert!(caps.has_tonemapx && caps.has_zscale && caps.has_bwdif && caps.has_libx265 && caps.has_tonemap);
    let once = format!("{caps:?}");
    apply_hw_presence_gates(&mut caps, &nothing_found(), Platform::Linux);
    assert_eq!(format!("{caps:?}"), once);
}

#[test]
fn linux_backends_need_their_devices() {
    let gated = |found: HwFindings| {
        let mut caps = everything();
        apply_hw_presence_gates(&mut caps, &found, Platform::Linux);
        caps
    };
    let render = vec!["renderD128".to_string()];
    // A driver without a render node is not enough.
    let caps = gated(HwFindings { i915_entries: Some(3), ..nothing_found() });
    assert!(!caps.has_qsv && !caps.has_vaapi);
    let caps = gated(HwFindings { i915_entries: Some(3), dri_names: render.clone(), ..nothing_found() });
    assert!(caps.has_qsv && caps.has_vaapi && !caps.has_amf && !caps.has_nvenc);
    let caps = gated(HwFindings { i915_entries: Some(0), xe_entries: Some(1), dri_names: render.clone(), ..nothing_found() });
    assert!(caps.has_qsv_hevc);
    let caps = gated(HwFindings { amdgpu_entries: Some(1), dri_names: render.clone(), ..nothing_found() });
    assert!(caps.has_amf && caps.has_vaapi && !caps.has_qsv);
    let caps = gated(HwFindings { nvidia_vaapi_driver: true, dri_names: render, ..nothing_found() });
    assert!(caps.has_vaapi_full && !caps.has_qsv && !caps.has_amf);
    let nvidia = vec!["nvidia0".to_string()];
    let caps = gated(HwFindings { device_names: nvidia.clone(), ..nothing_found() });
    assert!(!caps.has_nvenc);
    let caps = gated(HwFindings { nvidia_control: true, device_names: nvidia, ..nothing_found() });
    assert!(caps.has_nvenc && caps.has_cuvid);
    assert_eq!(select_backend(&caps), HwBackend::Cuda);
    let caps = gated(HwFindings { rockchip_device: true, ..nothing_found() });
    assert_eq!(select_backend(&caps), HwBackend::Rkmpp);
}

#[test]
fn other_systems_keep_what_was_built() {
    let mut caps = everything();
    apply_hw_presence_gates(&mut caps, &nothing_found(), Platform::MacOs);
    assert!(caps.has_videotoolbox && caps.has_nvenc && caps.has_qsv);
    let mut caps = everything();
    apply_hw_presence_gates(&mut caps, &nothing_found(), Platform::Windows);
    assert!(!caps.has_videotoolbox && caps.has_amf && caps.has_qsv && caps.has_vaapi);
}

#[test]
fn the_gpu_is_asked_for_its_codecs() {
    let nvidia = HwFindings {
        nvidia_control: true,
        device_names: vec!["nvidia1".to_string()],
        ..nothing_found()
    };
    let probed = vec!["hevc".to_string(), "av1".to_string()];
    let caps = get_hw_capabilities(everything(), &nvidia, Platform::Linux, probed.clone());
    assert!(wants_cuvid_probe(&caps));
    assert_eq!(caps.cuvid_hw_codecs, probed);
    let caps = get_hw_capabilities(everything(), &nothing_found(), Platform::Linux, probed.clone());
    assert!(!wants_cuvid_probe(&caps));
    assert!(caps.cuvid_hw_codecs.is_empty());
    let weak = HwCapabilities { has_cuda_full: false, ..everything() };
    let caps = get_hw_capabilities(weak, &nvidia, Platform::Linux, probed);
    assert_eq!(caps.cuvid_hw_codecs, vec!["h264".to_string()]);
}

#[test]
fn the_program_is_looked_for_in_order() {
    let dir = |ffmpeg, bin_ffmpeg| EnvFinding::Directory { ffmpeg, bin_ffmpeg };
    let none = EnvFinding::Nothing;
    assert_eq!(
        resolve_ffmpeg_binary(&[EnvFinding::File, EnvFinding::File], &[true]),
        FfmpegChoice::Named { variable: 0 }
    );
    assert_eq!(resolve_ffmpeg_binary(&[none, dir(true, true)], &[true]), FfmpegChoice::Below { variable: 1 });
    assert_eq!(resolve_ffmpeg_binary(&[dir(false, true), none], &[]), FfmpegChoice::BelowBin { variable: 0 });
    assert_eq!(
        resolve_ffmpeg_binary(&[dir(false, false), none], &[false, true, true]),
        FfmpegChoice::Workspace { ancestor: 1 }
    );
    assert_eq!(resolve_ffmpeg_binary(&[none, none], &[false]), FfmpegChoice::System);
}
