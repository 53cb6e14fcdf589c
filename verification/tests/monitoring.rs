use lemo::monitor::{
    is_busy, is_graphics_label, is_listed_label, is_shown_interface, is_virtual_interface,
    is_virtual_name, refresh_due, sensor_name, shown_interfaces, shown_sensors,
    strip_temperature, SHOWN_SENSORS,
};
use lemo::words::{can_shorten, contains_chars, is_sorted_before, remove_word, shorten, text_of};

#[test]
fn virtual_interfaces_are_told_by_name() {
    for name in [
        "Loopback Pseudo-Interface 1",
        "VMware Network Adapter VMnet8",
        "VirtualBox Host-Only Network",
        "vboxnet0",
        "lo",
        "lo0",
        "Local Area Connection",
        "LOCAL",
    ] {
        assert!(is_virtual_interface(name), "{}", name);
    }
    for name in ["Ethernet", "Wi-Fi", "eth0", "wlan0", "", "Hello", "xloy"] {
        assert!(!is_virtual_interface(name), "{}", name);
    }
    assert!(is_virtual_name("my vmware card"));
    assert!(!is_virtual_name("my VMware card"));
    assert!(is_busy(1024, 0));
    assert!(is_busy(0, 1024));
    assert!(!is_busy(1023, 1023));
    assert!(refresh_due(0, 1000));
    assert!(!refresh_due(0, 999));
    assert!(!refresh_due(5000, 1000));
    assert!(refresh_due(500, 1500));
}

#[test]
fn text_is_searched_for_words() {
    let chars = |s: &str| s.chars().collect::<Vec<char>>();
    assert!(contains_chars(&chars("abcabd"), &chars("abd")));
    assert!(contains_chars(&chars("abcabd"), &chars("")));
    assert!(contains_chars(&chars(""), &chars("")));
    assert!(contains_chars(&chars("abc"), &chars("abc")));
    assert!(contains_chars(&chars("abc"), &chars("c")));
    assert!(!contains_chars(&chars("abc"), &chars("abcd")));
    assert!(!contains_chars(&chars("abc"), &chars("ca")));
    assert!(!contains_chars(&chars(""), &chars("a")));
    assert!(contains_chars(&chars("aaab"), &chars("aab")));
    for hay in ["", "a", "ab", "aab", "abab", "bbbaabbb", "ünï"] {
        for needle in ["", "a", "b", "ab", "ba", "aab", "bbb", "ï"] {
            assert_eq!(contains_chars(&chars(hay), &chars(needle)), hay.contains(needle));
        }
    }
}

#[test]
fn sensors_are_chosen_by_label() {
    let labels: Vec<String> = [
        "acpitz temp1",
        "Core 0",
        "NVIDIA GeForce RTX temp",
        "CPU Package",
        "amdgpu edge",
        "Core 1",
        "Motherboard",
        "System fan",
        "core 2",
    ]
    .iter()
    .map(|s| s.to_string())
    .collect();
    let choice = shown_sensors(&labels);
    assert_eq!(choice.graphics, Some(2));
    assert_eq!(choice.listed, vec![1, 3, 5, 6]);
    assert_eq!(choice.listed.len(), SHOWN_SENSORS);
    let choice = shown_sensors(&vec!["fan".to_string(), "battery".to_string()]);
    assert_eq!(choice.graphics, None);
    assert!(choice.listed.is_empty());
    let choice = shown_sensors(&Vec::new());
    assert_eq!(choice.graphics, None);
    assert!(choice.listed.is_empty());
    for label in ["gpu", "video card", "intel uhd", "intel iris xe", "geforce", "gtx 1080", "rx 580", "radeon", "vga", "display", "graphics"] {
        assert!(is_graphics_label(label), "{}", label);
    }
    for label in ["intel", "cpu", "core 0", "", "hd audio"] {
        assert!(!is_graphics_label(label), "{}", label);
    }
    assert!(is_listed_label("cpu package"));
    assert!(is_listed_label("system board"));
    assert!(is_listed_label("gtx core"));
    assert!(!is_listed_label("gpu core"));
    assert!(!is_listed_label("amd cpu"));
    assert!(!is_listed_label("fan"));
}

#[test]
fn long_texts_are_cut_for_display() {
    let brand = "Intel(R) Core(TM) i7-10700K CPU @ 3.80GHz";
    assert_eq!(shorten(brand, 35, 32), "Intel(R) Core(TM) i7-10700K CPU ...");
    assert_eq!(shorten("short", 35, 32), "short");
    let exact = "a".repeat(35);
    assert_eq!(shorten(&exact, 35, 32), exact);
    let longer = "a".repeat(36);
    assert_eq!(shorten(&longer, 35, 32), format!("{}...", "a".repeat(32)));
    assert!(can_shorten(brand, 35, 32));
    assert!(can_shorten("ééé", 35, 32));
    // the cut would fall inside the second character
    assert!(!can_shorten("aééééé", 5, 2));
    assert!(can_shorten("aééééé", 5, 3));
    assert_eq!(shorten("aééééé", 5, 3), "aé...");
}

#[test]
fn interfaces_are_shown_in_the_order_of_their_names() {
    let names = |list: &[&str]| list.iter().map(|s| s.to_string()).collect::<Vec<String>>();
    let all = names(&["wlan0", "eth1", "Ethernet", "eth0", "eth10", ""]);
    assert_eq!(shown_interfaces(&all, &vec![true; 6]), vec![5, 2]);
    assert_eq!(shown_interfaces(&all, &vec![true, true, true, true, true, false]), vec![2, 3]);
    assert_eq!(shown_interfaces(&all, &vec![true, true, false, false, true, false]), vec![1, 4]);
    assert_eq!(shown_interfaces(&all, &vec![true, false, false, false, false, false]), vec![0]);
    assert!(shown_interfaces(&all, &vec![false; 6]).is_empty());
    assert!(shown_interfaces(&Vec::new(), &Vec::new()).is_empty());
    let twins = names(&["b", "a", "b", "a"]);
    assert_eq!(shown_interfaces(&twins, &vec![true; 4]), vec![1, 3]);
    assert_eq!(shown_interfaces(&twins, &vec![true, false, true, false]), vec![0, 2]);
    // the order is that of the sorted names
    let mut seed = 7u32;
    for _ in 0..200 {
        let mut list = Vec::new();
        for _ in 0..6 {
            seed = seed.wrapping_mul(1103515245).wrapping_add(12345);
            let len = (seed >> 16) % 4;
            let mut name = String::new();
            for _ in 0..len {
                seed = seed.wrapping_mul(1103515245).wrapping_add(12345);
                name.push(['a', 'b', 'é', 'Z'][((seed >> 16) % 4) as usize]);
            }
            list.push(name);
        }
        let mut sorted: Vec<(String, usize)> =
            list.iter().cloned().enumerate().map(|(i, n)| (n, i)).collect();
        sorted.sort();
        let expected: Vec<usize> = sorted.iter().take(2).map(|p| p.1).collect();
        assert_eq!(shown_interfaces(&list, &vec![true; 6]), expected);
    }
    let chars = |s: &str| s.chars().collect::<Vec<char>>();
    for a in ["", "a", "ab", "b", "é", "ez", "Z"] {
        for b in ["", "a", "ab", "b", "é", "ez", "Z"] {
            assert_eq!(is_sorted_before(&chars(a), &chars(b)), a < b, "{} {}", a, b);
        }
    }
    assert!(is_shown_interface("Ethernet", 2048, 0));
    assert!(!is_shown_interface("Ethernet", 10, 10));
    assert!(!is_shown_interface("VMware Adapter", 2048, 2048));
}

#[test]
fn sensors_are_named_without_the_words_for_temperature() {
    assert_eq!(sensor_name("GPU temp"), "GPU");
    assert_eq!(sensor_name("  Temp GPU Temperature "), "GPU erature");
    assert_eq!(sensor_name("temperature"), "erature");
    assert_eq!(sensor_name("Temperature"), "erature");
    assert_eq!(sensor_name("nvidia"), "nvidia");
    assert_eq!(sensor_name(""), "");
    assert_eq!(sensor_name("tetempmp"), "temp");
    assert_eq!(strip_temperature(" a temp b "), " a  b ");
    let chars = |s: &str| s.chars().collect::<Vec<char>>();
    for text in ["", "a", "aaa", "aaaa", "abab", "ababa", "xaay", "temptemp", "ünï"] {
        for word in ["", "a", "aa", "ab", "aba", "temp", "ï", "zzzzzzzzzzz"] {
            assert_eq!(
                text_of(&remove_word(&chars(text), &chars(word))),
                text.replace(word, ""),
                "{} {}",
                text,
                word
            );
        }
    }
    for label in ["GPU temp", "edge Temperature 1", " x ", "Core 0"] {
        assert_eq!(
            sensor_name(label),
            label
                .replace("temp", "")
                .replace("temperature", "")
                .replace("Temp", "")
                .replace("Temperature", "")
                .trim()
        );
    }
}
