use o_sovereign::aipc_controller::{AipcController, HardwareCommand, HardwareStatus, HardwareType};
use o_sovereign::image_generator::{GenerationConfig, ImageGenerator};

#[test]
fn test_hardware_commands() {
    let c = AipcController::new();
    let cmd = |h| HardwareCommand { hardware: h, action: "boost".to_string(), params: vec![] };
    assert_eq!(c.execute_command(cmd(HardwareType::Npu)).unwrap(), "NPU command executed");
    assert_eq!(c.execute_command(cmd(HardwareType::Gpu)).unwrap(), "GPU command executed");
    assert_eq!(c.execute_command(cmd(HardwareType::Storage)).unwrap(), "Command queued");
    assert_eq!(
        c.get_hardware_status(&HardwareType::Cpu),
        Some(HardwareStatus { hardware: HardwareType::Cpu, available: true, usage_permille: 0 })
    );
    assert!(c.get_hardware_status(&HardwareType::Gpu).is_none());
}

#[test]
fn test_image_generation() {
    let config = GenerationConfig::default();
    assert_eq!(config.model, "stable-diffusion-v2-1");
    assert_eq!(config.steps, 50);
    assert_eq!(config.guidance_scale_tenths, 75);
    assert_eq!((config.width, config.height), (512, 512));
    let g = ImageGenerator::new(config);
    let image = g.generate("a cat").unwrap();
    assert_eq!(image.len(), 1024);
    assert!(image.iter().all(|b| *b == 0));
    assert_eq!(g.file_name_at(1700000000), "generated_1700000000.png");
    let (name, bytes) = g.generate_and_save("a dog").unwrap();
    assert!(name.starts_with("generated_") && name.ends_with(".png"));
    assert_eq!(bytes.len(), 1024);
}
