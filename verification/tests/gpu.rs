use omafetch::modules::gpu::gpu_from_lspci;

#[test]
fn parses_lspci_gpu() {
    let input = "c1:00.0 VGA compatible controller: Advanced Micro Devices, Inc. [AMD/ATI] Strix Halo [Radeon 8060S]\n";

    assert_eq!(
        gpu_from_lspci(input),
        Some("AMD Strix Halo [Radeon 8060S]".to_string())
    );
}

#[test]
fn parses_machine_readable_lspci_gpu() {
    let input = "c3:00.0 \"Display controller\" \"Advanced Micro Devices, Inc. [AMD/ATI]\" \"Strix Halo [Radeon Graphics / Radeon 8050S Graphics / Radeon 8060S Graphics]\" -rc1 -p00 \"Framework Computer Inc.\" \"Device 000a\"\n";

    assert_eq!(
        gpu_from_lspci(input),
        Some(
            "AMD Strix Halo [Radeon Graphics / Radeon 8050S Graphics / Radeon 8060S Graphics]"
                .to_string()
        )
    );
}

#[test]
fn ignores_non_gpu_lspci_devices() {
    let input = "00:00.0 \"Host bridge\" \"Advanced Micro Devices, Inc. [AMD]\" \"Strix/Strix Halo Root Complex\" -r02 -p00 \"Framework Computer Inc.\" \"Device 000a\"\nc3:00.0 \"Display controller\" \"Advanced Micro Devices, Inc. [AMD/ATI]\" \"Strix Halo [Radeon Graphics / Radeon 8050S Graphics / Radeon 8060S Graphics]\" -rc1 -p00 \"Framework Computer Inc.\" \"Device 000a\"\nc3:00.1 \"Audio device\" \"Advanced Micro Devices, Inc. [AMD/ATI]\" \"Radeon High Definition Audio Controller\" -p00 \"Framework Computer Inc.\" \"Device 000a\"\n";

    assert_eq!(
        gpu_from_lspci(input),
        Some(
            "AMD Strix Halo [Radeon Graphics / Radeon 8050S Graphics / Radeon 8060S Graphics]"
                .to_string()
        )
    );
}

#[test]
fn prefers_discrete_nvidia_3d_controller_over_intel_igpu() {
    let input = "00:02.0 \"VGA compatible controller\" \"Intel Corporation\" \"Raptor Lake-P [Iris Xe Graphics]\" -r04 -p00 \"Dell\" \"Device 0c0b\"\n01:00.0 \"3D controller\" \"NVIDIA Corporation\" \"AD107M [GeForce RTX 4060 Max-Q / Mobile]\" -ra1 -p00 \"Dell\" \"Device 0c0b\"\n";

    assert_eq!(
        gpu_from_lspci(input),
        Some("NVIDIA AD107M [GeForce RTX 4060 Max-Q / Mobile]".to_string())
    );
}

#[test]
fn prefers_discrete_nvidia_vga_over_intel_igpu() {
    let input = "00:02.0 \"VGA compatible controller\" \"Intel Corporation\" \"Alder Lake-P GT2 [Iris Xe Graphics]\" -r0c -p00 \"Dell\" \"Device 0b1a\"\n01:00.0 \"VGA compatible controller\" \"NVIDIA Corporation\" \"GA104 [GeForce RTX 3070]\" -ra1 -p00 \"Dell\" \"Device 0b1a\"\n";

    assert_eq!(
        gpu_from_lspci(input),
        Some("NVIDIA GA104 [GeForce RTX 3070]".to_string())
    );
}

#[test]
fn prefers_discrete_amd_rx_over_igpu() {
    let input = "c3:00.0 \"Display controller\" \"Advanced Micro Devices, Inc. [AMD/ATI]\" \"Strix Halo [Radeon Graphics / Radeon 8050S Graphics / Radeon 8060S Graphics]\" -rc1 -p00 \"Framework Computer Inc.\" \"Device 000a\"\n01:00.0 \"VGA compatible controller\" \"Advanced Micro Devices, Inc. [AMD/ATI]\" \"Navi 48 [Radeon RX 9070 XT]\" -p00 \"AMD\" \"Device 0001\"\n";

    assert_eq!(
        gpu_from_lspci(input),
        Some("AMD Navi 48 [Radeon RX 9070 XT]".to_string())
    );
}

#[test]
fn prefers_discrete_intel_arc_over_igpu() {
    let input = "00:02.0 \"VGA compatible controller\" \"Intel Corporation\" \"Raptor Lake-S GT1 [UHD Graphics 770]\" -p00 \"ASUS\" \"Device 0001\"\n03:00.0 \"VGA compatible controller\" \"Intel Corporation\" \"DG2 [Arc A770]\" -p00 \"Intel Corporation\" \"Device 0000\"\n";

    assert_eq!(
        gpu_from_lspci(input),
        Some("Intel DG2 [Arc A770]".to_string())
    );
}

#[test]
fn does_not_treat_intel_arc_igpu_as_discrete() {
    let input = "00:02.0 \"VGA compatible controller\" \"Intel Corporation\" \"Meteor Lake-P [Intel Arc Graphics]\" -p00 \"Dell\" \"Device 0001\"\n01:00.0 \"3D controller\" \"NVIDIA Corporation\" \"AD107M [GeForce RTX 4060 Max-Q / Mobile]\" -p00 \"Dell\" \"Device 0001\"\n";

    assert_eq!(
        gpu_from_lspci(input),
        Some("NVIDIA AD107M [GeForce RTX 4060 Max-Q / Mobile]".to_string())
    );
}

#[test]
fn does_not_treat_amd_rx_vega_apu_as_discrete() {
    let input = "05:00.0 \"VGA compatible controller\" \"Advanced Micro Devices, Inc. [AMD/ATI]\" \"Picasso [Radeon RX Vega 11]\" -p00 \"Lenovo\" \"Device 1234\"\n06:00.0 \"VGA compatible controller\" \"Advanced Micro Devices, Inc. [AMD/ATI]\" \"Navi 48 [Radeon RX 9070 XT]\" -p00 \"AMD\" \"Device 0001\"\n";

    assert_eq!(
        gpu_from_lspci(input),
        Some("AMD Navi 48 [Radeon RX 9070 XT]".to_string())
    );
}

#[test]
fn prefers_discrete_amd_rx_vega_56_over_igpu() {
    let input = "05:00.0 \"VGA compatible controller\" \"Advanced Micro Devices, Inc. [AMD/ATI]\" \"Raven Ridge [Radeon Vega Series / Radeon Vega Mobile Series]\" -p00 \"HP\" \"Device 0001\"\n01:00.0 \"VGA compatible controller\" \"Advanced Micro Devices, Inc. [AMD/ATI]\" \"Vega 10 XL/XT [Radeon RX Vega 56/64]\" -p00 \"AMD\" \"Device 0001\"\n";

    assert_eq!(
        gpu_from_lspci(input),
        Some("AMD Vega 10 XL/XT [Radeon RX Vega 56/64]".to_string())
    );
}

#[test]
fn prefers_discrete_intel_arc_b_over_igpu() {
    let input = "00:02.0 \"VGA compatible controller\" \"Intel Corporation\" \"Raptor Lake-S GT1 [UHD Graphics 770]\" -p00 \"ASUS\" \"Device 0001\"\n03:00.0 \"VGA compatible controller\" \"Intel Corporation\" \"Battlemage G21 [Arc B580]\" -p00 \"Intel Corporation\" \"Device 0000\"\n";

    assert_eq!(
        gpu_from_lspci(input),
        Some("Intel Battlemage G21 [Arc B580]".to_string())
    );
}

#[test]
fn prefers_human_readable_discrete_nvidia_over_intel_igpu() {
    let input = "00:02.0 VGA compatible controller: Intel Corporation Raptor Lake-P [Iris Xe Graphics]\n01:00.0 3D controller: NVIDIA Corporation AD107M [GeForce RTX 4060 Max-Q / Mobile]\n";

    assert_eq!(
        gpu_from_lspci(input),
        Some("NVIDIA AD107M [GeForce RTX 4060 Max-Q / Mobile]".to_string())
    );
}

#[test]
fn does_not_treat_nvidia_tegra_as_discrete() {
    let input = "00:02.0 \"VGA compatible controller\" \"Intel Corporation\" \"Alder Lake-P GT2 [Iris Xe Graphics]\" -p00 \"Dell\" \"Device 0001\"\n01:00.0 \"VGA compatible controller\" \"NVIDIA Corporation\" \"Tegra X1 (nvgpu)\" -p00 \"NVIDIA Corporation\" \"Device 0001\"\n";

    assert_eq!(
        gpu_from_lspci(input),
        Some("Intel Alder Lake-P GT2 [Iris Xe Graphics]".to_string())
    );
}

#[test]
fn empty_lspci_yields_no_gpu() {
    assert_eq!(gpu_from_lspci(""), None);
    assert_eq!(gpu_from_lspci("\n"), None);
}

#[test]
fn non_gpu_lspci_yields_no_gpu() {
    let input = "00:00.0 \"Host bridge\" \"Advanced Micro Devices, Inc. [AMD]\" \"Strix/Strix Halo Root Complex\" -r02 -p00 \"Framework Computer Inc.\" \"Device 000a\"\nc3:00.1 \"Audio device\" \"Advanced Micro Devices, Inc. [AMD/ATI]\" \"Radeon High Definition Audio Controller\" -p00 \"Framework Computer Inc.\" \"Device 000a\"\n";

    assert_eq!(gpu_from_lspci(input), None);
}
