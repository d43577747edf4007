use enum_handlers::{handle, with_enum_handlers};
use proc_macro2::TokenStream;

fn ts(text: &str) -> TokenStream {
    text.parse::<TokenStream>().unwrap()
}

fn expand(attr: &str, input: &str) -> String {
    with_enum_handlers(ts(attr), ts(input)).to_string()
}

fn normalized(text: &str) -> String {
    ts(text).to_string()
}

const BASIC: &str = "impl App {
    #[handle(Message::Inc)]
    fn handle_inc(&self, Inc(value, times): Inc) {
        println!(\"{} + {}\", self.state, value * times);
    }

    #[handle(Message::Dec)]
    fn handle_dec(&mut self, value: isize) {
        self.state -= value;
    }
}";

#[test]
fn basic_example_generates_dispatch() {
    let expected = "impl App {
        #[handle(Message::Inc)]
        fn handle_inc(&self, Inc(value, times): Inc) {
            println!(\"{} + {}\", self.state, value * times);
        }

        #[handle(Message::Dec)]
        fn handle_dec(&mut self, value: isize) {
            self.state -= value;
        }

        pub fn dispatch(&mut self, cmd: Message) {
            match cmd {
                Message::Inc(Inc(value, times)) => return self.handle_inc(Inc(value, times)),
                Message::Dec(value) => return self.handle_dec(value),
            }
        }
    }";
    assert_eq!(expand("Message", BASIC), normalized(expected));
}

#[test]
fn custom_dispatch_name_and_return_type() {
    let input = "impl App {
        #[handle(Message::Inc)]
        fn handle_inc(&mut self, Inc(value, _times): Inc) -> IcedTask { IcedTask }
        #[handle(Message::Dec)]
        fn handle_dec(&mut self, value: isize) -> IcedTask { IcedTask }
        fn get(&self) -> isize { self.state }
    }";
    let expected = "impl App {
        #[handle(Message::Inc)]
        fn handle_inc(&mut self, Inc(value, _times): Inc) -> IcedTask { IcedTask }
        #[handle(Message::Dec)]
        fn handle_dec(&mut self, value: isize) -> IcedTask { IcedTask }
        fn get(&self) -> isize { self.state }
        pub fn update(&mut self, cmd: Message) -> IcedTask {
            match cmd {
                Message::Inc(Inc(value, _times)) => return self.handle_inc(Inc(value, _times)),
                Message::Dec(value) => return self.handle_dec(value),
            }
        }
    }";
    assert_eq!(expand("Message, dispatch=update", input), normalized(expected));
}

#[test]
fn all_immutable_handlers_give_shared_receiver() {
    let input = "impl App {
        #[handle(Message::Inc)]
        fn handle_inc(&self, Inc(value, times): Inc) -> isize { 0 }
        #[handle(Message::Dec)]
        fn handle_dec(&self, value: isize) -> isize { 0 }
    }";
    let out = expand("Message", input);
    assert!(out.contains(&normalized("pub fn dispatch(&self, cmd: Message) -> isize")));
}

#[test]
fn unit_variant_and_last_return_type() {
    let input = "impl App {
        #[handle(Message::Get)]
        fn handle_get(&self) -> Output { Output(self.state) }
        #[handle(Message::Inc)]
        fn handle_inc(&mut self, value: isize) -> Output2 { Output(self.state) }
    }";
    let out = expand("Message", input);
    let expected_fn = "pub fn dispatch(&mut self, cmd: Message) -> Output2 {
        match cmd {
            Message::Get => return self.handle_get(),
            Message::Inc(value) => return self.handle_inc(value),
        }
    }";
    assert!(out.contains(&normalized(expected_fn)));
}

#[test]
fn any_async_handler_makes_dispatch_async() {
    let input = "impl App {
        #[handle(Message::Get)]
        fn handle_get(&self) -> isize { self.state }
        #[handle(Message::Inc)]
        async fn handle_inc(&mut self, value: isize) -> isize { self.state }
        fn some_extra_method(&mut self) -> String { String::new() }
    }";
    let out = expand("Message", input);
    let expected_fn = "pub async fn dispatch(&mut self, cmd: Message) -> isize {
        match cmd {
            Message::Get => return self.handle_get(),
            Message::Inc(value) => return self.handle_inc(value).await,
        }
    }";
    assert!(out.contains(&normalized(expected_fn)));
}

#[test]
fn multiple_enums_each_get_their_own_dispatch() {
    let input = "impl App {
        #[handle(ApiMessage::Inc)]
        async fn handle_api_inc(&mut self) -> IcedTask { IcedTask }
        #[handle(ApiMessage::Dec)]
        async fn handle_confusing_name_dec(&mut self) -> IcedTask { IcedTask }
        #[handle(BackgroundMessage::Done)]
        fn handle_done(&mut self, value: isize) { self.state = value; }
        fn get(&self) -> isize { self.state }
    }";
    let first = expand("ApiMessage, dispatch=on_api", input);
    let api_fn = "pub async fn on_api(&mut self, cmd: ApiMessage) -> IcedTask {
        match cmd {
            ApiMessage::Inc => return self.handle_api_inc().await,
            ApiMessage::Dec => return self.handle_confusing_name_dec().await,
        }
    }";
    assert!(first.contains(&normalized(api_fn)));
    let second = expand("BackgroundMessage, dispatch=on_background", &first);
    let bg_fn = "pub fn on_background(&mut self, cmd: BackgroundMessage) {
        match cmd {
            BackgroundMessage::Done(value) => return self.handle_done(value),
        }
    }";
    assert!(second.contains(&normalized(api_fn)));
    assert!(second.contains(&normalized(bg_fn)));
}

#[test]
fn no_handlers_give_empty_match() {
    let out = expand("Message", "impl App { fn get(&self) -> isize { 0 } }");
    let expected = "impl App {
        fn get(&self) -> isize { 0 }
        pub fn dispatch(&self, cmd: Message) { match cmd { } }
    }";
    assert_eq!(out, normalized(expected));
}

#[test]
fn one_method_can_handle_two_variants() {
    let input = "impl App {
        #[handle(Message::A)]
        #[handle(Message::B)]
        fn both(&self, x: u8) {}
    }";
    let out = expand("Message", input);
    let expected_fn = "pub fn dispatch(&self, cmd: Message) {
        match cmd {
            Message::A(x) => return self.both(x),
            Message::B(x) => return self.both(x),
        }
    }";
    assert!(out.contains(&normalized(expected_fn)));
}

#[test]
fn wrong_attribute_keyword_is_refused() {
    let out = expand("Message, name = update", BASIC);
    assert!(out.contains("compile_error"));
    assert!(out.contains("Expected 'dispatch'"));
    assert!(!out.contains("impl App"));
}

#[test]
fn missing_identifier_after_comma_is_refused() {
    let out = expand("Message,", BASIC);
    assert!(out.contains("unexpected end of input, expected identifier"));
}

#[test]
fn missing_equals_is_refused() {
    let out = expand("Message, dispatch", BASIC);
    assert!(out.contains("expected `=`"));
    let out = expand("Message, dispatch : update", BASIC);
    assert!(out.contains("expected `=`"));
}

#[test]
fn keyword_as_dispatch_name_is_refused() {
    let out = expand("Message, dispatch = fn", BASIC);
    assert!(out.contains("expected identifier, found keyword `fn`"));
    let out = expand("Message, dispatch = 3", BASIC);
    assert!(out.contains("expected identifier"));
}

#[test]
fn trailing_tokens_are_refused() {
    let out = expand("Message extra", BASIC);
    assert!(out.contains("unexpected token"));
    let out = expand("Message, dispatch = update more", BASIC);
    assert!(out.contains("unexpected token"));
}

#[test]
fn attribute_without_type_is_refused() {
    let out = expand("", BASIC);
    assert!(out.contains("compile_error"));
}

#[test]
fn handle_without_type_argument_is_refused() {
    let input = "impl App {
        #[handle]
        fn get(&self) {}
    }";
    let out = expand("Message", input);
    assert!(out.contains("Invalid #[handle(Type)] syntax"));
}

#[test]
fn invalid_handle_of_other_enum_is_still_refused() {
    let input = "impl App {
        #[handle(Message::A)]
        fn a(&self) {}
        #[handle(= 3)]
        fn b(&self) {}
    }";
    let out = expand("Other", input);
    assert!(out.contains("Invalid #[handle(Type)] syntax"));
}

#[test]
fn non_impl_input_is_refused() {
    let out = expand("Message", "fn main() {}");
    assert!(out.contains("compile_error"));
}

#[test]
fn handle_returns_its_input() {
    let input = ts("fn handle_get(&self) -> isize { self.state }");
    let out = handle(ts("Message::Get"), input.clone());
    assert_eq!(out.to_string(), input.to_string());
}

#[test]
fn pattern_that_is_not_an_expression_is_reported() {
    let input = "impl App {
        #[handle(Message::Inc)]
        fn inc(&mut self, mut value: isize) {}
    }";
    let out = expand("Message", input);
    assert!(out.contains("compile_error"));
}

#[test]
fn variant_with_arguments_gives_an_arm_that_does_not_parse() {
    let input = "impl App {
        #[handle(Message::Get(u8))]
        fn get(&self) {}
    }";
    let out = expand("Message", input);
    assert!(out.contains("compile_error"));
    let input = "impl App {
        #[handle(Message::Inc(isize))]
        fn inc(&self, value: isize) {}
    }";
    let out = expand("Message", input);
    assert!(out.contains("compile_error"));
}

#[test]
fn typed_shared_self_receiver_counts_as_immutable() {
    let input = "impl App {
        #[handle(Message::Get)]
        fn get(self: &Self) -> u8 { 0 }
        #[handle(Message::Put)]
        fn put(&self, v: u8) -> u8 { v }
    }";
    let out = expand("Message", input);
    assert!(out.contains(&normalized("pub fn dispatch(&self, cmd: Message) -> u8")));
    let input = "impl App {
        #[handle(Message::Get)]
        fn get(self: &mut Self) -> u8 { 0 }
    }";
    let out = expand("Message", input);
    assert!(out.contains(&normalized("pub fn dispatch(&mut self, cmd: Message) -> u8")));
}

#[test]
fn handle_name_value_attribute_is_refused() {
    let input = "impl App {
        #[handle = \"x\"]
        fn get(&self) {}
    }";
    let out = expand("Message", input);
    assert!(out.contains("Invalid #[handle(Type)] syntax"));
}

#[test]
fn handler_of_another_enum_sharing_the_root_is_not_dispatched() {
    let input = "impl App {
        #[handle(crate::A::X)]
        fn x(&mut self) {}
        #[handle(crate::B::Y)]
        fn y(&self) {}
    }";
    let out = expand("crate::B", input);
    let expected_fn = "pub fn dispatch(&self, cmd: crate::B) {
        match cmd {
            crate::B::Y => return self.y(),
        }
    }";
    assert!(out.contains(&normalized(expected_fn)));
}

#[test]
fn syn_reports_missing_equals_without_end_of_input_prefix() {
    let err = syn::parse2::<syn::token::Eq>(TokenStream::new()).err().unwrap();
    assert_eq!(err.to_string(), "expected `=`");
    let out = expand("Message, dispatch", BASIC);
    assert!(out.contains("\"expected `=`\""));
}
