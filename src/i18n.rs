use vstd::prelude::*;

verus! {

/// Language of the user-facing text.
#[derive(Clone, Copy, Debug, PartialEq, Eq, Structural)]
pub enum Language {
    En,
    Zh,
}

/// Chinese text of a key; empty for an unknown key.
pub open spec fn zh_text(key: Seq<char>) -> Seq<char> {
    if key == "app_title"@ {
        "自动 A-B 循环播放器"@
    } else if key == "open_file"@ {
        "打开文件..."@
    } else if key == "drag_drop"@ {
        "拖拽音频文件到此处"@
    } else if key == "loading"@ {
        "正在加载..."@
    } else if key == "detecting"@ {
        "正在检测循环点..."@
    } else if key == "reading"@ {
        "读取文件中..."@
    } else if key == "unknown_title"@ {
        "未知标题"@
    } else if key == "unknown_artist"@ {
        "未知艺术家"@
    } else if key == "unknown_album"@ {
        "未知专辑"@
    } else if key == "loop_found"@ {
        "发现循环点"@
    } else if key == "confidence"@ {
        "置信度"@
    } else if key == "fade_out_loop"@ {
        "检测到淡出循环！"@
    } else if key == "no_loop"@ {
        "未检测到循环，正常播放。"@
    } else if key == "low_accuracy"@ {
        "匹配精度较低，结果可能不准确。"@
    } else if key == "play"@ {
        "播放"@
    } else if key == "stop"@ {
        "停止"@
    } else if key == "volume"@ {
        "音量"@
    } else if key == "loop_count"@ {
        "循环次数"@
    } else if key == "infinite"@ {
        "无限"@
    } else if key == "export"@ {
        "导出..."@
    } else if key == "exporting"@ {
        "正在导出..."@
    } else if key == "export_success"@ {
        "导出成功！"@
    } else if key == "export_fail"@ {
        "导出失败："@
    } else if key == "save_file"@ {
        "保存文件"@
    } else {
        ""@
    }
}

/// English text of a key; empty for an unknown key.
pub open spec fn en_text(key: Seq<char>) -> Seq<char> {
    if key == "app_title"@ {
        "Auto A-B Loop Player"@
    } else if key == "open_file"@ {
        "Open File..."@
    } else if key == "drag_drop"@ {
        "Drag & Drop Audio File Here"@
    } else if key == "loading"@ {
        "Loading..."@
    } else if key == "detecting"@ {
        "Detecting Loop Points..."@
    } else if key == "reading"@ {
        "Reading file..."@
    } else if key == "unknown_title"@ {
        "Unknown Title"@
    } else if key == "unknown_artist"@ {
        "Unknown Artist"@
    } else if key == "unknown_album"@ {
        "Unknown Album"@
    } else if key == "loop_found"@ {
        "Loop Found"@
    } else if key == "confidence"@ {
        "Confidence"@
    } else if key == "fade_out_loop"@ {
        "Fade-Out Loop Detected!"@
    } else if key == "no_loop"@ {
        "No loop detected. Normal playback."@
    } else if key == "low_accuracy"@ {
        "Low accuracy match - result might be incorrect."@
    } else if key == "play"@ {
        "Play"@
    } else if key == "stop"@ {
        "Stop"@
    } else if key == "volume"@ {
        "Volume"@
    } else if key == "loop_count"@ {
        "Loop Count"@
    } else if key == "infinite"@ {
        "Infinite"@
    } else if key == "export"@ {
        "Export..."@
    } else if key == "exporting"@ {
        "Exporting..."@
    } else if key == "export_success"@ {
        "Export Successful!"@
    } else if key == "export_fail"@ {
        "Export Failed: "@
    } else if key == "save_file"@ {
        "Save File"@
    } else {
        ""@
    }
}

/// Text of a key in a language; the key itself when the language has no text for it.
pub open spec fn translate(lang: Language, key: Seq<char>) -> Seq<char> {
    let text = match lang {
        Language::En => en_text(key),
        Language::Zh => zh_text(key),
    };
    if text.len() == 0 { key } else { text }
}

fn same(a: &str, b: &str) -> (r: bool)
    ensures
        r == (a@ == b@),
{
    a.to_owned() == b.to_owned()
}

fn get_zh(key: &str) -> (r: &'static str)
    ensures
        r@ == zh_text(key@),
{
    if same(key, "app_title") {
        "自动 A-B 循环播放器"
    } else if same(key, "open_file") {
        "打开文件..."
    } else if same(key, "drag_drop") {
        "拖拽音频文件到此处"
    } else if same(key, "loading") {
        "正在加载..."
    } else if same(key, "detecting") {
        "正在检测循环点..."
    } else if same(key, "reading") {
        "读取文件中..."
    } else if same(key, "unknown_title") {
        "未知标题"
    } else if same(key, "unknown_artist") {
        "未知艺术家"
    } else if same(key, "unknown_album") {
        "未知专辑"
    } else if same(key, "loop_found") {
        "发现循环点"
    } else if same(key, "confidence") {
        "置信度"
    } else if same(key, "fade_out_loop") {
        "检测到淡出循环！"
    } else if same(key, "no_loop") {
        "未检测到循环，正常播放。"
    } else if same(key, "low_accuracy") {
        "匹配精度较低，结果可能不准确。"
    } else if same(key, "play") {
        "播放"
    } else if same(key, "stop") {
        "停止"
    } else if same(key, "volume") {
        "音量"
    } else if same(key, "loop_count") {
        "循环次数"
    } else if same(key, "infinite") {
        "无限"
    } else if same(key, "export") {
        "导出..."
    } else if same(key, "exporting") {
        "正在导出..."
    } else if same(key, "export_success") {
        "导出成功！"
    } else if same(key, "export_fail") {
        "导出失败："
    } else if same(key, "save_file") {
        "保存文件"
    } else {
        ""
    }
}

fn get_en(key: &str) -> (r: &'static str)
    ensures
        r@ == en_text(key@),
{
    if same(key, "app_title") {
        "Auto A-B Loop Player"
    } else if same(key, "open_file") {
        "Open File..."
    } else if same(key, "drag_drop") {
        "Drag & Drop Audio File Here"
    } else if same(key, "loading") {
        "Loading..."
    } else if same(key, "detecting") {
        "Detecting Loop Points..."
    } else if same(key, "reading") {
        "Reading file..."
    } else if same(key, "unknown_title") {
        "Unknown Title"
    } else if same(key, "unknown_artist") {
        "Unknown Artist"
    } else if same(key, "unknown_album") {
        "Unknown Album"
    } else if same(key, "loop_found") {
        "Loop Found"
    } else if same(key, "confidence") {
        "Confidence"
    } else if same(key, "fade_out_loop") {
        "Fade-Out Loop Detected!"
    } else if same(key, "no_loop") {
        "No loop detected. Normal playback."
    } else if same(key, "low_accuracy") {
        "Low accuracy match - result might be incorrect."
    } else if same(key, "play") {
        "Play"
    } else if same(key, "stop") {
        "Stop"
    } else if same(key, "volume") {
        "Volume"
    } else if same(key, "loop_count") {
        "Loop Count"
    } else if same(key, "infinite") {
        "Infinite"
    } else if same(key, "export") {
        "Export..."
    } else if same(key, "exporting") {
        "Exporting..."
    } else if same(key, "export_success") {
        "Export Successful!"
    } else if same(key, "export_fail") {
        "Export Failed: "
    } else if same(key, "save_file") {
        "Save File"
    } else {
        ""
    }
}

/// Makes `lang` the current language held in `current`.
pub fn set_language(current: &mut Language, lang: Language)
    ensures
        *final(current) == lang,
{
    *current = lang;
}

/// The current language held in `current`.
pub fn get_language(current: &Language) -> (r: Language)
    ensures
        r == *current,
{
    *current
}

/// Text of `key` in `lang`, falling back to the key itself.
pub fn t(lang: Language, key: &str) -> (r: String)
    ensures
        r@ == translate(lang, key@),
{
    let val = match lang {
        Language::En => get_en(key),
        Language::Zh => get_zh(key),
    };
    if val.is_empty() {
        key.to_owned()
    } else {
        val.to_owned()
    }
}

} // verus!
