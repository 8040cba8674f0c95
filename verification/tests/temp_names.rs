use nasdedup_core::filter::temp_names::{la_ten_tam, oc_transfer};

#[test]
fn bat_duoc_file_tam_that() {
    for n in [
        ".phim.mp4.aBc123",
        ".Movie.mkv.XyZ789",
        "phim.mp4.ocTransferId1234.part",
        "phim.mp4.part",
        "phim.mp4.crdownload",
        "phim.mp4.PART",
        "phim.mp4.filepart",
        "phim.mp4.partial",
        "phim.mp4.download",
        "phim.mp4.tmp",
        ".syncthing.phim.mp4.tmp",
        "._phim.mp4",
        "~$baocao.docx",
        ".nasdedup-probe-1.tmp",
    ] {
        assert!(la_ten_tam(n), "phải nhận ra {n} là file tạm");
    }
}

#[test]
fn khong_bat_nham_ten_that() {
    for n in [
        "phim.mp4",
        "Phim Hay 2024.mkv",
        ".an.mp4",
        ".config",
        "a.b.mp4",
        "phim.abcdef",
        "phim.mp4.partly",
        "syncthing.phim.tmp2",
        "_phim.mp4",
        "~baocao.docx",
        "phim.ocTransferId.part_khac",
    ] {
        assert!(!la_ten_tam(n), "không được coi {n} là file tạm");
    }
}

#[test]
fn rsync_doi_dung_sau_ky_tu_ascii() {
    assert!(!la_ten_tam(".phim.mp4.ab-123"));
    assert!(!la_ten_tam(".phim.mp4.abc12"));
    assert!(!la_ten_tam(".phim.mp4.abc1234"));
}

#[test]
fn oc_transfer_doi_chu_so() {
    assert!(la_ten_tam("a.mp4.ocTransferId7.part"));
    assert!(!oc_transfer("a.mp4.ocTransferId.part"));
    assert!(!oc_transfer("a.mp4.ocTransferIdX9.part"));
}
