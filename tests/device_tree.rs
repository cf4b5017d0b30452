use rgmii_delay::device_tree::{find_nodes, node_path, pinmux_property_selects, Gpio, PinMux};

#[test]
fn from_u32_for_pinmux() {
    let pinmux = PinMux::from(0x0000580b);

    assert_eq!(pinmux.bank, 5);
    assert_eq!(pinmux.line, 8);
    assert_eq!(pinmux._mode, 0xb);
}

fn gpio(bank: char, line: u8) -> Gpio {
    Gpio { bank, line, pinctrl: "pinctrl@44240000".to_string() }
}

#[test]
fn pinmux_property() {
    let property = [0x00, 0x00, 0x12, 0x0b, 0x00, 0x00, 0x58, 0x0b, 0x00];
    assert!(pinmux_property_selects(&property, &gpio('F', 8)));
    assert!(pinmux_property_selects(&property, &gpio('B', 2)));
    assert!(!pinmux_property_selects(&property, &gpio('F', 9)));
    assert!(!pinmux_property_selects(&property[..7], &gpio('F', 8)));
    assert!(!pinmux_property_selects(&[], &gpio('A', 0)));
}

#[test]
fn node_paths() {
    assert_eq!(
        node_path("/sys/firmware/devicetree/base/soc/pinctrl@44240000/eth1-rgmii-0"),
        Some("/soc/pinctrl@44240000/eth1-rgmii-0".to_string())
    );
    assert_eq!(node_path("/sys/firmware/devicetree/base"), Some("/".to_string()));
    assert_eq!(node_path("/sys/firmware/devicetree/basement/x"), None);
    assert_eq!(node_path("/proc"), None);
    let paths = vec![
        "/sys/firmware/devicetree/base/soc/a".to_string(),
        "/tmp/b".to_string(),
        "/sys/firmware/devicetree/base/soc/c/d".to_string(),
    ];
    assert_eq!(find_nodes(&paths), vec!["/soc/a".to_string(), "/soc/c/d".to_string()]);
}

use rgmii_delay::device_tree::{
    find_gpio, get_address, get_name, gtx_clock_pin, parse_pinconf_line, pinctrl_name, Address, PinconfLine,
};

fn lines(text: &[&str]) -> Vec<String> {
    text.iter().map(|l| l.to_string()).collect()
}

#[test]
fn uevent_name() {
    let uevent = lines(&["DRIVER=st,stm32-dwmac", "OF_NAME=ethernet", "OF_FULLNAME=/soc/ethernet@482c0000"]);
    assert_eq!(get_name(&uevent), Some("ethernet".to_string()));
    assert_eq!(get_name(&lines(&["OF_NAME=eth=1", "OF_NAME=other"])), Some("eth".to_string()));
    assert_eq!(get_name(&lines(&["OF_NAME", "OF_NAME=other"])), None);
    assert_eq!(get_name(&lines(&["OF_NAMES=x", "DRIVER=y"])), None);
    assert_eq!(get_name(&lines(&["OF_NAME="])), Some(String::new()));
    assert_eq!(get_name(&Vec::new()), None);
}

#[test]
fn pinctrl_directory() {
    assert_eq!(pinctrl_name("soc:pinctrl@44240000"), Some("pinctrl@44240000".to_string()));
    assert_eq!(pinctrl_name("soc:pinctrl"), Some("pinctrl@???".to_string()));
    assert_eq!(pinctrl_name("soc:pinctrl@1@2"), Some("pinctrl@1".to_string()));
    assert_eq!(pinctrl_name("pinctrl-handles"), None);
}

#[test]
fn clock_pin_name_is_upper_case() {
    assert_eq!(gtx_clock_pin("eth1"), "ETH1_RGMII_GTX_CLK");
    assert_eq!(gtx_clock_pin(""), "_RGMII_GTX_CLK");
}

#[test]
fn pinconf_lines() {
    let needle = "ETH1_RGMII_GTX_CLK";
    assert_eq!(
        parse_pinconf_line("pin 131 (PI3): ETH1_RGMII_GTX_CLK, input bias disabled", needle),
        PinconfLine::Pin { bank: 'I', line: 3 }
    );
    assert_eq!(
        parse_pinconf_line("pin 38 (PC12) ETH1_RGMII_GTX_CLK (other)", needle),
        PinconfLine::Pin { bank: 'C', line: 12 }
    );
    assert_eq!(parse_pinconf_line("pin 131 ETH1_RGMII_GTX_CLK", needle), PinconfLine::Malformed);
    assert_eq!(parse_pinconf_line("pin 131 (PI3): ETH2_RGMII_GTX_CLK", needle), PinconfLine::Other);
    assert_eq!(parse_pinconf_line("pin 131 (XI3): ETH1_RGMII_GTX_CLK", needle), PinconfLine::Other);
    assert_eq!(parse_pinconf_line("pin 131 (PI300): ETH1_RGMII_GTX_CLK", needle), PinconfLine::Other);
    assert_eq!(parse_pinconf_line("pin 131 (PI+7): ETH1_RGMII_GTX_CLK", needle), PinconfLine::Pin { bank: 'I', line: 7 });
    assert_eq!(parse_pinconf_line("pin 131 (PI): ETH1_RGMII_GTX_CLK", needle), PinconfLine::Other);
    assert_eq!(parse_pinconf_line("pin 131 (P): ETH1_RGMII_GTX_CLK", needle), PinconfLine::Other);

    let file = lines(&[
        "Pin config settings per pin",
        "pin 1 (PA1): ETH1_MDIO",
        "pin 2 (QQ2): ETH1_RGMII_GTX_CLK",
        "pin 131 (PI3): ETH1_RGMII_GTX_CLK",
        "pin 132 ETH1_RGMII_GTX_CLK",
    ]);
    assert_eq!(find_gpio(&file, needle), PinconfLine::Pin { bank: 'I', line: 3 });
    assert_eq!(find_gpio(&file[..3].to_vec(), needle), PinconfLine::Other);
    let file = lines(&["pin 132 ETH1_RGMII_GTX_CLK", "pin 131 (PI3): ETH1_RGMII_GTX_CLK"]);
    assert_eq!(find_gpio(&file, needle), PinconfLine::Malformed);
}

#[test]
fn register_address() {
    assert_eq!(
        get_address("/soc@0/rifsc@42080000/pinctrl@44240000/gpio@44270000\0", 3),
        Some(Address { base: 0x44270040, offset: 12 })
    );
    assert_eq!(get_address("/soc/gpio@4427ABcd\0\0", 7), Some(Address { base: 0x4427AC0D, offset: 28 }));
    assert_eq!(get_address("44270000", 0), Some(Address { base: 0x44270040, offset: 0 }));
    assert_eq!(get_address("/soc/gpio@44270000", 8), Some(Address { base: 0x44270040, offset: 32 }));
    assert_eq!(get_address("/soc/gpio@44270000", 63), Some(Address { base: 0x44270040, offset: 252 }));
    assert_eq!(get_address("/soc/gpio@44270000", 64), None);
    assert_eq!(get_address("/soc/gpio@xyz", 1), None);
    assert_eq!(get_address("/soc/gpio@", 1), None);
    assert_eq!(get_address("/soc/gpio@ffffffffffffffff", 1), None);
    assert_eq!(get_address("/soc/gpio@ffffffffffffffbf", 1), Some(Address { base: u64::MAX, offset: 4 }));
}
