use peek::ai::{
    ChoiceDelta, ResponseChunk, Role, StreamChunk, Tool, ToolCallDelta, ToolChoice, LLM,
    create_tool,
};

fn text_chunk(t: &str) -> ResponseChunk {
    ResponseChunk {
        choices: vec![ChoiceDelta { content: Some(t.to_string()), tool_calls: None }],
    }
}

fn call_chunk(id: &str, name: &str, args: &str) -> ResponseChunk {
    ResponseChunk {
        choices: vec![ChoiceDelta {
            content: None,
            tool_calls: Some(vec![ToolCallDelta {
                id: id.to_string(),
                name: name.to_string(),
                arguments: args.to_string(),
            }]),
        }],
    }
}

fn simple_tool(name: &str) -> Tool {
    create_tool(name.to_string(), "a tool".to_string(), vec![])
}

#[test]
fn history_grows_by_two_per_completed_exchange() {
    let mut llm = LLM::new();
    llm.set_system_prompt("be helpful".to_string());
    let before = llm.history().len();
    for i in 0..4 {
        let (_req, mut stream) = llm.stream_completion(format!("prompt {i}"));
        let _ = stream.feed(text_chunk("a"));
        let _ = stream.feed(text_chunk("b"));
        let _ = llm.finish_exchange(stream);
    }
    assert_eq!(llm.history().len(), before + 2 * 4);
}

#[test]
fn text_events_concatenate_to_the_assistant_turn() {
    let mut llm = LLM::new();
    let (_req, mut stream) = llm.stream_completion("hi".to_string());
    let mut emitted = String::new();
    for chunk in [text_chunk("Hel"), call_chunk("c1", "t", "{}"), text_chunk("lo"), text_chunk("!")] {
        for ev in stream.feed(chunk) {
            if let StreamChunk::Text(t) = ev {
                emitted.push_str(&t);
            }
        }
    }
    let _ = llm.finish_exchange(stream);
    let last = llm.history().last().unwrap();
    assert_eq!(last.role, Role::Assistant);
    assert_eq!(last.content, emitted);
    assert_eq!(last.content, "Hello!");
}

#[test]
fn empty_stream_still_appends_an_empty_assistant_turn() {
    let mut llm = LLM::new();
    let (_req, stream) = llm.stream_completion("hi".to_string());
    let calls = llm.finish_exchange(stream);
    assert!(calls.is_empty());
    assert_eq!(llm.history().len(), 2);
    assert_eq!(llm.history()[1].role, Role::Assistant);
    assert_eq!(llm.history()[1].content, "");
}

#[test]
fn failed_stream_keeps_the_user_turn_only() {
    let mut llm = LLM::new();
    let (_req, stream) = llm.stream_completion("hi".to_string());
    drop(stream);
    assert_eq!(llm.history().len(), 1);
    assert_eq!(llm.history()[0].role, Role::User);
}

#[test]
fn tool_calls_are_collected_in_emission_order() {
    let mut llm = LLM::new();
    let (_req, mut stream) = llm.stream_completion("run things".to_string());
    let evs = stream.feed(call_chunk("c1", "execute_query", "{\"query\":\"select 1\"}"));
    assert_eq!(evs.len(), 1);
    let _ = stream.feed(text_chunk("done"));
    let _ = stream.feed(call_chunk("c2", "generate_query", "{}"));
    let calls = llm.finish_exchange(stream);
    assert_eq!(calls.len(), 2);
    assert_eq!(calls[0].id, "c1");
    assert_eq!(calls[0].name, "execute_query");
    assert_eq!(calls[0].arguments, "{\"query\":\"select 1\"}");
    assert_eq!(calls[1].id, "c2");
}

#[test]
fn chunk_with_text_and_tool_call_emits_text_first() {
    let mut llm = LLM::new();
    let (_req, mut stream) = llm.stream_completion("go".to_string());
    let chunk = ResponseChunk {
        choices: vec![ChoiceDelta {
            content: Some("thinking".to_string()),
            tool_calls: Some(vec![ToolCallDelta {
                id: "c9".to_string(),
                name: "execute_query".to_string(),
                arguments: "{}".to_string(),
            }]),
        }],
    };
    let evs = stream.feed(chunk);
    assert_eq!(evs.len(), 2);
    assert!(matches!(&evs[0], StreamChunk::Text(t) if t == "thinking"));
    assert!(matches!(&evs[1], StreamChunk::ToolCall(c) if c.id == "c9"));
}

#[test]
fn only_the_first_choice_and_first_call_are_processed() {
    let mut llm = LLM::new();
    let (_req, mut stream) = llm.stream_completion("go".to_string());
    let chunk = ResponseChunk {
        choices: vec![
            ChoiceDelta {
                content: Some("first".to_string()),
                tool_calls: Some(vec![
                    ToolCallDelta {
                        id: "a".to_string(),
                        name: "x".to_string(),
                        arguments: "{}".to_string(),
                    },
                    ToolCallDelta {
                        id: "b".to_string(),
                        name: "y".to_string(),
                        arguments: "{}".to_string(),
                    },
                ]),
            },
            ChoiceDelta { content: Some("second".to_string()), tool_calls: None },
        ],
    };
    let evs = stream.feed(chunk);
    assert_eq!(evs.len(), 2);
    assert!(matches!(&evs[0], StreamChunk::Text(t) if t == "first"));
    assert!(matches!(&evs[1], StreamChunk::ToolCall(c) if c.id == "a"));
    let empty = stream.feed(ResponseChunk { choices: vec![] });
    assert!(empty.is_empty());
}

#[test]
fn registering_the_same_tool_name_twice_keeps_both_entries() {
    let mut llm = LLM::new();
    llm.add_tool(simple_tool("execute_query"));
    llm.add_tool(simple_tool("execute_query"));
    let tools = llm.tools();
    assert_eq!(tools.len(), 2);
    assert_eq!(tools[0].name, "execute_query");
    assert_eq!(tools[1].name, "execute_query");
}

#[test]
fn set_tools_replaces_the_registry() {
    let mut llm = LLM::new();
    llm.add_tool(simple_tool("a"));
    llm.set_tools(vec![simple_tool("b"), simple_tool("c")]);
    let names: Vec<&str> = llm.tools().iter().map(|t| t.name.as_str()).collect();
    assert_eq!(names, vec!["b", "c"]);
}

#[test]
fn request_carries_history_and_tools_with_auto_choice() {
    let mut llm = LLM::new();
    llm.set_system_prompt("sys".to_string());
    llm.add_tool(simple_tool("execute_query"));
    let (req, _stream) = llm.stream_completion("question".to_string());
    assert_eq!(req.messages.len(), 2);
    assert_eq!(req.messages[0].role, Role::System);
    assert_eq!(req.messages[0].content, "sys");
    assert_eq!(req.messages[1].role, Role::User);
    assert_eq!(req.messages[1].content, "question");
    assert_eq!(req.tools.len(), 1);
    assert_eq!(req.tool_choice, ToolChoice::Auto);
}

#[test]
fn request_without_tools_has_no_tool_choice() {
    let mut llm = LLM::new();
    let (req, _stream) = llm.stream_completion("question".to_string());
    assert!(req.tools.is_empty());
    assert_eq!(req.tool_choice, ToolChoice::NoTools);
}

#[test]
fn add_tool_result_appends_the_wire_object_and_streams_again() {
    let mut llm = LLM::new();
    let (_req, stream) = llm.stream_completion("hi".to_string());
    let _ = llm.finish_exchange(stream);
    let (req, mut stream) = llm.add_tool_result("call_7".to_string(), "3 rows".to_string());
    assert_eq!(llm.history().len(), 3);
    let turn = &llm.history()[2];
    assert_eq!(turn.role, Role::ToolResult);
    assert_eq!(turn.content, "{\"tool_call_id\":\"call_7\",\"content\":\"3 rows\"}");
    assert_eq!(req.messages.len(), 3);
    let _ = stream.feed(text_chunk("the table has 3 rows"));
    let _ = llm.finish_exchange(stream);
    assert_eq!(llm.history().len(), 4);
    assert_eq!(llm.history()[3].content, "the table has 3 rows");
}
