use nvix::driver::{
    download_link_from_page, lookup_link, Driver, DriverChannels, DriverEdition, DriverPlatform,
    DriverWindowsVersion,
};
use nvix::xml::XmlGpuEntry;

fn driver(channel: DriverChannels, edition: DriverEdition) -> Driver {
    Driver {
        version: String::new(),
        channel,
        platform: DriverPlatform::Desktop,
        edition,
        winver: DriverWindowsVersion::Win11,
    }
}

#[test]
fn lookup_link_for_game_ready_dch() {
    let gpu = XmlGpuEntry { name: "GeForce RTX 3090 Ti".to_string(), series: 120, id: 985 };
    assert_eq!(
        lookup_link(&gpu, &driver(DriverChannels::GameReady, DriverEdition::DCH)),
        "https://www.nvidia.com/Download/processDriver.aspx?psid=120&pfid=985&osid=57&lid=1&whql=1&dtcid=1"
    );
}

#[test]
fn lookup_link_for_studio_std_and_edge_ids() {
    let gpu = XmlGpuEntry { name: "x".to_string(), series: 0, id: 65535 };
    assert_eq!(
        lookup_link(&gpu, &driver(DriverChannels::Studio, DriverEdition::STD)),
        "https://www.nvidia.com/Download/processDriver.aspx?psid=0&pfid=65535&osid=57&lid=1&whql=4&dtcid=0"
    );
}

#[test]
fn page_link_is_cut_from_last_url_parameter() {
    let page = "<a href=\"/content/DriverDownload/confirmation.php?url=/Windows/516.59/516.59-desktop-win10-win11-64bit-international-dch-whql.exe&lang=us&type=GeForce\">";
    assert_eq!(
        download_link_from_page(page),
        "https://international.download.nvidia.com/Windows/516.59/516.59-desktop-win10-win11-64bit-international-dch-whql.exe"
    );
    let two = "a?url=/first&x b?url=/second&y";
    assert_eq!(download_link_from_page(two), "https://international.download.nvidia.com/second");
}

#[test]
fn page_without_url_parameter_keeps_text_before_ampersand() {
    assert_eq!(download_link_from_page("abc&def"), "https://international.download.nvidia.comabc");
    assert_eq!(download_link_from_page(""), "https://international.download.nvidia.com");
}
