use atic_desktop::watch::{hold_millis, normalized_settings, threshold_hundredths, AlertSettings, Paso, Sostenido};

fn pct(v: f32) -> u32 {
    (v * 100.0).round() as u32
}

fn umbral(p: u8) -> u32 {
    threshold_hundredths(p)
}

fn secs(s: u64) -> u64 {
    s * 1000
}

#[test]
fn un_pico_no_avisa() {
    let mut s = Sostenido::new();
    let t0 = 1_000_000u64;
    assert_eq!(s.tick(pct(99.0), umbral(85), secs(120), t0), Paso::Nada);
    assert_eq!(s.tick(pct(99.0), umbral(85), secs(120), t0 + secs(30)), Paso::Nada);
    assert_eq!(s.tick(pct(10.0), umbral(85), secs(120), t0 + secs(40)), Paso::Nada);
    assert_eq!(s.tick(pct(99.0), umbral(85), secs(120), t0 + secs(150)), Paso::Nada, "el reloj arranca de nuevo, no se acumula");
}

#[test]
fn lo_sostenido_si_avisa_y_se_apaga_con_margen() {
    let mut s = Sostenido::new();
    let t0 = 1_000_000u64;
    let dos_min = secs(120);
    assert_eq!(s.tick(pct(90.0), umbral(85), dos_min, t0), Paso::Nada);
    assert_eq!(s.tick(pct(90.0), umbral(85), dos_min, t0 + dos_min), Paso::Encender);
    assert!(s.encendido());
    assert_eq!(s.tick(pct(92.0), umbral(85), dos_min, t0 + secs(130)), Paso::Nada);
    assert_eq!(s.tick(pct(84.0), umbral(85), dos_min, t0 + secs(140)), Paso::Nada);
    assert!(s.encendido());
    assert_eq!(s.tick(pct(70.0), umbral(85), dos_min, t0 + secs(150)), Paso::Apagar);
    assert!(!s.encendido());
}

#[test]
fn umbral_cero_no_vigila() {
    let mut s = Sostenido::new();
    let t0 = 1_000_000u64;
    assert_eq!(s.tick(pct(100.0), umbral(0), secs(1), t0), Paso::Nada);
    assert!(!s.encendido());
}

#[test]
fn apagar_la_vigilancia_baja_el_aviso_encendido() {
    let mut s = Sostenido::new();
    let t0 = 1_000_000u64;
    let corto = secs(1);
    s.tick(pct(99.0), umbral(85), corto, t0);
    assert_eq!(s.tick(pct(99.0), umbral(85), corto, t0 + secs(2)), Paso::Encender);
    assert_eq!(s.tick(pct(99.0), umbral(0), corto, t0 + secs(3)), Paso::Apagar);
}

#[test]
fn settings_are_bounded_before_saving() {
    let s = normalized_settings(AlertSettings { enabled: true, cpu: 10, ram: 0, seconds: 2 });
    assert_eq!(s, AlertSettings { enabled: true, cpu: 30, ram: 0, seconds: 5 });
    let s = normalized_settings(AlertSettings { enabled: false, cpu: 150, ram: 80, seconds: 9000 });
    assert_eq!(s, AlertSettings { enabled: false, cpu: 100, ram: 80, seconds: 3600 });
    assert_eq!(hold_millis(3), 5000);
    assert_eq!(hold_millis(120), 120_000);
}

#[test]
fn exactly_the_hysteresis_below_turns_the_alert_off() {
    let mut s = Sostenido { desde: None, encendido: true };
    assert_eq!(s.tick(pct(77.0), umbral(85), secs(1), 0), Paso::Apagar);
}
