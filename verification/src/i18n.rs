//! User-facing message texts.

use vstd::prelude::*;

verus! {

pub const MSG_OWNER_REGISTERED: &'static str =
    "✅ 봇 소유자로 등록되었습니다.\n/help 로 사용 가능한 명령어를 확인하세요.";

pub const MSG_PRIVATE_BOT: &'static str = "이 봇은 비공개입니다. 봇 소유자에게 문의하세요.";

pub const MSG_NO_SESSION: &'static str =
    "세션이 없습니다. /start <폴더경로> 로 시작하세요.\n예: /start ~/my-project";

pub const MSG_AI_BUSY: &'static str = "AI가 작업 중입니다. /stop 으로 중단할 수 있습니다.";

pub const MSG_SESSION_CLEARED: &'static str = "세션이 초기화되었습니다.";

pub const MSG_NO_ACTIVE_REQUEST: &'static str = "진행 중인 AI 요청이 없습니다.";

pub const MSG_FILTER_NOTICE: &'static str = "⚠ 일부 내용이 보안 필터에 의해 수정되었습니다.";

pub const MSG_NO_RESPONSE: &'static str = "(응답 없음)";

pub const MSG_SHELL_TIMEOUT: &'static str = "명령 실행 시간 초과 (60초 제한)";

pub const MSG_STOPPING: &'static str = "중단 중...";

} // verus!
